//! Project keys: the lower-cased form of a project's name, by which projects
//! are told apart and ordered. Two names that differ only in case are the
//! same project.

use vstd::prelude::*;
use vstd::utf8::encode_utf8;

verus! {

/// The lower-case form of `text` as `str::to_lowercase` gives it: Unicode's
/// mapping, the same for every locale.
pub uninterp spec fn lowercase(text: Seq<char>) -> Seq<char>;

/// Calls `str::to_lowercase`. Its result is not described here but named:
/// it is `lowercase` of the text.
#[verifier::external_body]
fn to_lowercase(text: &str) -> (lowered: String)
    ensures
        lowered@ == lowercase(text@),
{
    text.to_lowercase()
}

/// Whether `a` comes strictly before `b` when byte strings are ordered like
/// words in a dictionary: by the first byte in which they differ, a proper
/// prefix before its extensions.
pub open spec fn precedes(a: Seq<u8>, b: Seq<u8>) -> bool
    decreases a.len(),
{
    if b.len() == 0 {
        false
    } else if a.len() == 0 {
        true
    } else if a[0] != b[0] {
        a[0] < b[0]
    } else {
        precedes(a.drop_first(), b.drop_first())
    }
}

/// No byte string comes before itself.
pub proof fn precedes_irreflexive(a: Seq<u8>)
    ensures
        !precedes(a, a),
    decreases a.len(),
{
    if a.len() > 0 {
        precedes_irreflexive(a.drop_first());
    }
}

/// Of two byte strings at most one comes before the other.
pub proof fn precedes_asymmetric(a: Seq<u8>, b: Seq<u8>)
    requires
        precedes(a, b),
    ensures
        !precedes(b, a),
    decreases a.len(),
{
    if a.len() > 0 && b.len() > 0 && a[0] == b[0] {
        precedes_asymmetric(a.drop_first(), b.drop_first());
    }
}

/// What comes before something that comes before `c` comes before `c`.
pub proof fn precedes_transitive(a: Seq<u8>, b: Seq<u8>, c: Seq<u8>)
    requires
        precedes(a, b),
        precedes(b, c),
    ensures
        precedes(a, c),
    decreases a.len(),
{
    if a.len() > 0 && b.len() > 0 && c.len() > 0 && a[0] == b[0] && b[0] == c[0] {
        precedes_transitive(a.drop_first(), b.drop_first(), c.drop_first());
    }
}

/// Byte strings that agree on their first `n` bytes are ordered as what
/// follows those bytes.
proof fn precedes_after_common_prefix(a: Seq<u8>, b: Seq<u8>, n: int)
    requires
        0 <= n <= a.len(),
        n <= b.len(),
        forall|i: int| 0 <= i < n ==> a[i] == b[i],
    ensures
        precedes(a, b) == precedes(a.skip(n), b.skip(n)),
    decreases n,
{
    if n == 0 {
        assert(a.skip(0) =~= a);
        assert(b.skip(0) =~= b);
    } else {
        assert forall|i: int| 0 <= i < n - 1 implies a.drop_first()[i] == b.drop_first()[i] by {
            assert(a.drop_first()[i] == a[i + 1]);
            assert(b.drop_first()[i] == b[i + 1]);
        }
        precedes_after_common_prefix(a.drop_first(), b.drop_first(), n - 1);
        assert(a.drop_first().skip(n - 1) =~= a.skip(n));
        assert(b.drop_first().skip(n - 1) =~= b.skip(n));
    }
}

/// How two byte strings stand to each other.
#[derive(Debug, Clone, Copy, PartialEq, Eq, Structural)]
pub enum Rank {
    Before,
    Same,
    After,
}

/// Ranks `a` against `b` in dictionary order.
pub fn rank_bytes(a: &[u8], b: &[u8]) -> (rank: Rank)
    ensures
        rank == Rank::Before <==> precedes(a@, b@),
        rank == Rank::Same <==> a@ == b@,
        rank == Rank::After <==> precedes(b@, a@),
{
    let mut i: usize = 0;
    while i < a.len() && i < b.len() && a[i] == b[i]
        invariant
            i <= a.len(),
            i <= b.len(),
            forall|j: int| 0 <= j < i ==> a@[j] == b@[j],
        decreases a.len() - i,
    {
        i += 1;
    }
    proof {
        precedes_after_common_prefix(a@, b@, i as int);
        precedes_after_common_prefix(b@, a@, i as int);
        precedes_irreflexive(a@);
        if precedes(a@, b@) {
            precedes_asymmetric(a@, b@);
        }
        if precedes(b@, a@) {
            precedes_asymmetric(b@, a@);
        }
    }
    if i == a.len() && i == b.len() {
        assert(a@ =~= b@);
        Rank::Same
    } else if i == a.len() {
        Rank::Before
    } else if i == b.len() {
        Rank::After
    } else if a[i] < b[i] {
        assert(a@.skip(i as int)[0] == a@[i as int]);
        assert(b@.skip(i as int)[0] == b@[i as int]);
        Rank::Before
    } else {
        assert(a@.skip(i as int)[0] == a@[i as int]);
        assert(b@.skip(i as int)[0] == b@[i as int]);
        Rank::After
    }
}

/// The identity of a project: its name in lower case.
#[derive(Debug, Clone, PartialEq, Eq, PartialOrd, Ord)]
pub struct ProjectKey {
    key: String,
}

impl View for ProjectKey {
    type V = Seq<char>;

    closed spec fn view(&self) -> Seq<char> {
        self.key@
    }
}

/// Whether the key `a` sorts strictly before the key `b`: the order of their
/// UTF-8 bytes, which is the order of `String`.
pub open spec fn key_before(a: Seq<char>, b: Seq<char>) -> bool {
    precedes(encode_utf8(a), encode_utf8(b))
}

/// Keys with the same bytes are the same key.
pub proof fn key_bytes_injective(a: Seq<char>, b: Seq<char>)
    requires
        encode_utf8(a) == encode_utf8(b),
    ensures
        a == b,
{
    vstd::utf8::encode_utf8_decode_utf8(a);
    vstd::utf8::encode_utf8_decode_utf8(b);
}

impl ProjectKey {
    /// The key of the project called `name`.
    pub fn new(name: &str) -> (key: ProjectKey)
        ensures
            key@ == lowercase(name@),
    {
        ProjectKey { key: to_lowercase(name) }
    }

    /// The key that reads `key`, taken as it is.
    pub fn raw(key: String) -> (made: ProjectKey)
        ensures
            made@ == key@,
    {
        ProjectKey { key }
    }

    /// The key as UTF-8.
    pub fn as_bytes(&self) -> (bytes: &[u8])
        ensures
            bytes@ == encode_utf8(self@),
    {
        self.key.as_str().as_bytes()
    }

    /// The key as text.
    pub fn as_str(&self) -> (text: &str)
        ensures
            text@ == self@,
    {
        self.key.as_str()
    }

    /// A copy of the key.
    pub fn duplicate(&self) -> (copy: ProjectKey)
        ensures
            copy@ == self@,
    {
        ProjectKey { key: self.key.clone() }
    }

    /// Whether both keys name the same project.
    pub fn same(&self, other: &ProjectKey) -> (same: bool)
        ensures
            same == (self@ == other@),
    {
        self.key == other.key
    }

    /// Ranks this key against `other` in the order in which projects are
    /// listed.
    pub fn rank(&self, other: &ProjectKey) -> (rank: Rank)
        ensures
            rank == Rank::Before <==> key_before(self@, other@),
            rank == Rank::Same <==> self@ == other@,
            rank == Rank::After <==> key_before(other@, self@),
    {
        proof {
            if encode_utf8(self@) == encode_utf8(other@) {
                key_bytes_injective(self@, other@);
            }
        }
        rank_bytes(self.as_bytes(), other.as_bytes())
    }
}

} // verus!
