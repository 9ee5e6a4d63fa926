//! The log as bytes: entries one after the other, each ended by a line
//! feed. Bytes after the last line feed are an entry that was never
//! finished, and are not read.

use crate::action::{decoding, Action, END_OF_ENTRY};
use crate::key::ProjectKey;
use vstd::prelude::*;
use vstd::slice::slice_subrange;

verus! {

/// How many bytes of `log` come before its first line feed; all of them if
/// it has none.
pub open spec fn line_len(log: Seq<u8>) -> nat
    decreases log.len(),
{
    if log.len() == 0 || log[0] == END_OF_ENTRY {
        0
    } else {
        1 + line_len(log.drop_first())
    }
}

/// The entries of `log`, each without the line feed that ends it.
pub open spec fn entries(log: Seq<u8>) -> Seq<Seq<u8>>
    decreases log.len(),
{
    let first = line_len(log);
    if first >= log.len() {
        Seq::empty()
    } else {
        seq![log.take(first as int)] + entries(log.skip(first as int + 1))
    }
}

/// The first line feed of a log stands where no byte before is one.
pub proof fn line_len_found(log: Seq<u8>, at: int)
    requires
        0 <= at <= log.len(),
        forall|i: int| 0 <= i < at ==> log[i] != END_OF_ENTRY,
        at < log.len() ==> log[at] == END_OF_ENTRY,
    ensures
        line_len(log) == at,
    decreases at,
{
    if at > 0 {
        assert forall|i: int| 0 <= i < at - 1 implies log.drop_first()[i] != END_OF_ENTRY by {
            assert(log.drop_first()[i] == log[i + 1]);
        }
        line_len_found(log.drop_first(), at - 1);
    }
}

/// The line before the first line feed holds no line feed, and the line feed
/// follows it.
pub proof fn line_len_bounds(log: Seq<u8>)
    ensures
        line_len(log) <= log.len(),
        forall|i: int| 0 <= i < line_len(log) ==> log[i] != END_OF_ENTRY,
        line_len(log) < log.len() ==> log[line_len(log) as int] == END_OF_ENTRY,
    decreases log.len(),
{
    if log.len() > 0 && log[0] != END_OF_ENTRY {
        let rest = log.drop_first();
        line_len_bounds(rest);
        assert forall|i: int| 0 <= i < line_len(log) implies log[i] != END_OF_ENTRY by {
            if i > 0 {
                assert(rest[i - 1] == log[i]);
            }
        }
    }
}

/// A log that ends where an entry ends.
pub open spec fn complete(log: Seq<u8>) -> bool {
    log.len() == 0 || log.last() == END_OF_ENTRY
}

/// An entry appended to a complete log is read back after the entries that
/// were there, provided it holds no line feed of its own.
pub proof fn appended_entry_read_back(log: Seq<u8>, entry: Seq<u8>)
    requires
        complete(log),
        forall|i: int| 0 <= i < entry.len() ==> entry[i] != END_OF_ENTRY,
    ensures
        entries(log + entry.push(END_OF_ENTRY)) == entries(log).push(entry),
        complete(log + entry.push(END_OF_ENTRY)),
    decreases log.len(),
{
    let line = entry.push(END_OF_ENTRY);
    let grown = log + line;
    if log.len() == 0 {
        assert(grown =~= line);
        line_len_found(line, entry.len() as int);
        assert(line.take(entry.len() as int) =~= entry);
        assert(line.skip(entry.len() as int + 1) =~= Seq::<u8>::empty());
        assert(entries(Seq::<u8>::empty()) =~= Seq::<Seq<u8>>::empty());
        assert(entries(log) =~= Seq::<Seq<u8>>::empty());
        assert(entries(grown) =~= entries(log).push(entry));
    } else {
        line_len_bounds(log);
        let first = line_len(log) as int;
        assert(first < log.len());
        assert forall|i: int| 0 <= i < first implies grown[i] != END_OF_ENTRY by {
            assert(grown[i] == log[i]);
        }
        assert(grown[first] == log[first]);
        line_len_found(grown, first);
        let rest = log.skip(first + 1);
        assert(grown.skip(first + 1) =~= rest + line);
        assert(grown.take(first) =~= log.take(first));
        assert(complete(rest)) by {
            if rest.len() > 0 {
                assert(rest.last() == log.last());
            }
        }
        appended_entry_read_back(rest, entry);
        assert(entries(grown) =~= entries(log).push(entry));
    }
}

/// Whether `read` is the reading of `entry`: the key and the action that
/// `decoding` gives, or a failure where it gives none.
pub open spec fn reads(read: Result<(Option<ProjectKey>, Action), ()>, entry: Seq<u8>) -> bool {
    match decoding(entry) {
        Some((key, action)) => {
            &&& read matches Ok((read_key, read_action))
            &&& read_action@ == action
            &&& read_key is Some <==> key is Some
            &&& read_key matches Some(read_key) ==> Some(read_key@) == key
        },
        None => read is Err,
    }
}

/// A reader that goes through a log once, from its start.
pub struct ReplayLog<'a> {
    rest: &'a [u8],
}

impl<'a> ReplayLog<'a> {
    /// The bytes not read yet.
    pub closed spec fn remaining(&self) -> Seq<u8> {
        self.rest@
    }

    /// A reader at the start of `log`.
    pub fn new(log: &'a [u8]) -> (reader: ReplayLog<'a>)
        ensures
            reader.remaining() == log@,
    {
        ReplayLog { rest: log }
    }

    /// Reads the next entry, if a finished one is left. An entry that cannot
    /// be read is passed over and reported as a failure.
    pub fn next(&mut self) -> (read: Option<Result<(Option<ProjectKey>, Action), ()>>)
        ensures
            read is None <==> entries(old(self).remaining()).len() == 0,
            read matches Some(read) ==> reads(read, entries(old(self).remaining())[0]),
            read is Some ==> entries(final(self).remaining()) == entries(
                old(self).remaining(),
            ).drop_first(),
            read is None ==> final(self).remaining() == old(self).remaining(),
            final(self).remaining().len() <= old(self).remaining().len(),
            read is Some ==> final(self).remaining().len() < old(self).remaining().len(),
    {
        let rest = self.rest;
        let mut at: usize = 0;
        while at < rest.len() && rest[at] != END_OF_ENTRY
            invariant
                at <= rest.len(),
                forall|i: int| 0 <= i < at ==> rest@[i] != END_OF_ENTRY,
            decreases rest.len() - at,
        {
            at += 1;
        }
        proof {
            line_len_found(rest@, at as int);
        }
        if at >= rest.len() {
            None
        } else {
            let entry = slice_subrange(rest, 0, at);
            let after = slice_subrange(rest, at + 1, rest.len());
            proof {
                assert(entry@ =~= rest@.take(at as int));
                assert(after@ =~= rest@.skip(at + 1));
                assert(entries(rest@).drop_first() =~= entries(after@));
            }
            self.rest = after;
            Some(Action::from_bytes(entry))
        }
    }
}

} // verus!
