//! Integers on the wire: little-endian two's complement, the least
//! significant byte first.

use vstd::prelude::*;

verus! {

/// The `width` least significant base-256 digits of `value`, lowest first.
/// For a negative `value` these are the digits of its two's complement.
pub open spec fn digits(value: int, width: nat) -> Seq<u8>
    decreases width,
{
    if width == 0 {
        Seq::empty()
    } else {
        seq![(value % 256) as u8] + digits(value / 256, (width - 1) as nat)
    }
}

/// The number that `bytes` spell as base-256 digits, lowest first.
pub open spec fn number(bytes: Seq<u8>) -> int
    decreases bytes.len(),
{
    if bytes.len() == 0 {
        0
    } else {
        bytes[0] as int + 256 * number(bytes.drop_first())
    }
}

/// The eight bytes of `value`.
pub open spec fn i64_le(value: i64) -> Seq<u8> {
    digits(value as int, 8)
}

/// The four bytes of `value`.
pub open spec fn i32_le(value: i32) -> Seq<u8> {
    digits(value as int, 4)
}

/// The integer whose eight bytes are `bytes`.
pub open spec fn i64_from_le(bytes: Seq<u8>) -> int {
    let unsigned = number(bytes);
    if unsigned >= 0x8000_0000_0000_0000 {
        unsigned - 0x1_0000_0000_0000_0000
    } else {
        unsigned
    }
}

/// The integer whose four bytes are `bytes`.
pub open spec fn i32_from_le(bytes: Seq<u8>) -> int {
    let unsigned = number(bytes);
    if unsigned >= 0x8000_0000 {
        unsigned - 0x1_0000_0000
    } else {
        unsigned
    }
}

pub proof fn digits_len(value: int, width: nat)
    ensures
        digits(value, width).len() == width,
    decreases width,
{
    if width > 0 {
        digits_len(value / 256, (width - 1) as nat);
    }
}

/// The digits of a number spell what is left of it after the digits above
/// them are taken away.
proof fn number_of_digits(value: int, width: nat) -> (rest: int)
    ensures
        number(digits(value, width)) + rest == value,
        width == 0 ==> rest == value,
        width > 0 ==> rest == 256 * number_of_digits_rest(value / 256, (width - 1) as nat),
        rest == number_of_digits_rest(value, width),
    decreases width,
{
    if width == 0 {
        value
    } else {
        let low = (value % 256) as u8;
        let tail = digits(value / 256, (width - 1) as nat);
        let all = digits(value, width);
        assert(all[0] == low);
        assert(all.drop_first() =~= tail);
        let above = number_of_digits(value / 256, (width - 1) as nat);
        digits_len(value, width);
        256 * above
    }
}

/// What of `value` lies above its `width` lowest digits.
spec fn number_of_digits_rest(value: int, width: nat) -> int
    decreases width,
{
    if width == 0 {
        value
    } else {
        256 * number_of_digits_rest(value / 256, (width - 1) as nat)
    }
}

/// Reading back the eight bytes of an integer gives the integer.
pub proof fn i64_round_trip(value: i64)
    ensures
        i64_le(value).len() == 8,
        i64_from_le(i64_le(value)) == value,
{
    let v = value as int;
    digits_len(v, 8);
    let rest = number_of_digits(v, 8);
    reveal_with_fuel(number_of_digits_rest, 9);
    let d1 = v / 256;
    let d2 = d1 / 256;
    let d3 = d2 / 256;
    let d4 = d3 / 256;
    let d5 = d4 / 256;
    let d6 = d5 / 256;
    let d7 = d6 / 256;
    let d8 = d7 / 256;
    assert(rest == 0x1_0000_0000_0000_0000 * d8);
    assert(d8 == 0 || d8 == -1);
    number_bounds(i64_le(value));
    reveal_with_fuel(span, 9);
}

/// Reading back the four bytes of an integer gives the integer.
pub proof fn i32_round_trip(value: i32)
    ensures
        i32_le(value).len() == 4,
        i32_from_le(i32_le(value)) == value,
{
    let v = value as int;
    digits_len(v, 4);
    let rest = number_of_digits(v, 4);
    reveal_with_fuel(number_of_digits_rest, 5);
    let d1 = v / 256;
    let d2 = d1 / 256;
    let d3 = d2 / 256;
    let d4 = d3 / 256;
    assert(rest == 0x1_0000_0000 * d4);
    assert(d4 == 0 || d4 == -1);
    number_bounds(i32_le(value));
    reveal_with_fuel(span, 5);
}

/// 256 to the power of `width`.
pub open spec fn span(width: nat) -> int
    decreases width,
{
    if width == 0 {
        1
    } else {
        256 * span((width - 1) as nat)
    }
}

/// Bytes spell a number that is not negative and has no more digits than
/// there are bytes.
pub proof fn number_bounds(bytes: Seq<u8>)
    ensures
        0 <= number(bytes) < span(bytes.len()),
    decreases bytes.len(),
{
    if bytes.len() > 0 {
        number_bounds(bytes.drop_first());
    }
}

/// Eight bytes read as an integer give a 64-bit one, four bytes a 32-bit one.
pub proof fn from_le_in_range(bytes: Seq<u8>)
    ensures
        bytes.len() == 8 ==> i64::MIN <= i64_from_le(bytes) <= i64::MAX,
        bytes.len() == 4 ==> i32::MIN <= i32_from_le(bytes) <= i32::MAX,
{
    number_bounds(bytes);
    reveal_with_fuel(span, 9);
}

/// Appends the `width` lowest base-256 digits of `value` to `buffer`.
fn push_digits(buffer: &mut Vec<u8>, value: u64, width: usize)
    ensures
        final(buffer)@ == old(buffer)@ + digits(value as int, width as nat),
{
    let mut left: u64 = value;
    let mut done: usize = 0;
    while done < width
        invariant
            done <= width,
            buffer@ + digits(left as int, (width - done) as nat) == old(buffer)@ + digits(
                value as int,
                width as nat,
            ),
        decreases width - done,
    {
        let ghost before = buffer@;
        let low: u8 = (left % 256) as u8;
        buffer.push(low);
        proof {
            let rest = digits(left as int / 256, (width - done - 1) as nat);
            assert(digits(left as int, (width - done) as nat) == seq![low] + rest);
            assert(buffer@ + rest =~= before + (seq![low] + rest));
        }
        left = left / 256;
        done += 1;
    }
    assert(buffer@ + digits(left as int, 0) =~= buffer@);
}

/// The unsigned number with the bits of `value`.
fn unsigned_of_i64(value: i64) -> (bits: u64)
    ensures
        bits == if value >= 0 {
            value as int
        } else {
            value + 0x1_0000_0000_0000_0000
        },
{
    if value >= 0 {
        value as u64
    } else {
        let wide: i128 = value as i128 + 0x1_0000_0000_0000_0000;
        wide as u64
    }
}

/// Adding a multiple of 256 to the power of `width` leaves the `width` lowest
/// digits as they are.
proof fn digits_ignore_overflow(value: int, carry: int, width: nat)
    ensures
        digits(value + carry * span(width), width) == digits(value, width),
    decreases width,
{
    if width > 0 {
        let above = carry * span((width - 1) as nat);
        assert(carry * span(width) == 256 * above) by (nonlinear_arith)
            requires
                span(width) == 256 * span((width - 1) as nat),
                above == carry * span((width - 1) as nat),
        ;
        assert((value + 256 * above) % 256 == value % 256);
        assert((value + 256 * above) / 256 == value / 256 + above);
        digits_ignore_overflow(value / 256, carry, (width - 1) as nat);
    }
}

/// Appends the eight bytes of `value` to `buffer`.
pub fn push_i64(buffer: &mut Vec<u8>, value: i64)
    ensures
        final(buffer)@ == old(buffer)@ + i64_le(value),
{
    let bits = unsigned_of_i64(value);
    proof {
        reveal_with_fuel(span, 9);
        if value < 0 {
            digits_ignore_overflow(value as int, 1, 8);
        }
    }
    push_digits(buffer, bits, 8);
}

/// Appends the four bytes of `value` to `buffer`.
pub fn push_i32(buffer: &mut Vec<u8>, value: i32)
    ensures
        final(buffer)@ == old(buffer)@ + i32_le(value),
{
    let bits = unsigned_of_i64(value as i64);
    proof {
        reveal_with_fuel(span, 9);
        if value < 0 {
            digits_ignore_overflow(value as int, 0x1_0000_0000, 4);
        }
    }
    push_digits(buffer, bits, 4);
}

/// The number that the `width` bytes of `data` from `from` on spell.
fn read_number(data: &[u8], from: usize, width: usize) -> (value: u64)
    requires
        width <= 8,
        from + width <= data.len(),
    ensures
        value == number(data@.subrange(from as int, from + width)),
{
    let ghost bytes = data@.subrange(from as int, from + width);
    let mut value: u64 = 0;
    let mut left: usize = width;
    proof {
        assert(bytes.skip(width as int) =~= Seq::empty());
        reveal_with_fuel(span, 9);
    }
    while left > 0
        invariant
            left <= width <= 8,
            from + width <= data.len(),
            bytes == data@.subrange(from as int, from + width),
            value == number(bytes.skip(left as int)),
            value < span((width - left) as nat),
        decreases left,
    {
        left -= 1;
        proof {
            let tail = bytes.skip(left as int);
            assert(tail.drop_first() =~= bytes.skip(left + 1));
            assert(tail[0] == data@[from + left]);
            number_bounds(tail);
            span_bound((width - left) as nat);
            span_bound((width - left - 1) as nat);
        }
        value = data[from + left] as u64 + 256 * value;
    }
    assert(bytes.skip(0) =~= bytes);
    value
}

/// Up to eight digits fit in 64 bits.
proof fn span_bound(width: nat)
    requires
        width <= 8,
    ensures
        0 < span(width) <= 0x1_0000_0000_0000_0000,
        width < 8 ==> 256 * span(width) <= 0x1_0000_0000_0000_0000,
{
    reveal_with_fuel(span, 9);
}

/// Reads the integer whose eight bytes follow position `from` in `data`.
pub fn read_i64(data: &[u8], from: usize) -> (value: i64)
    requires
        from + 8 <= data.len(),
    ensures
        value == i64_from_le(data@.subrange(from as int, from + 8)),
{
    let unsigned = read_number(data, from, 8);
    proof {
        from_le_in_range(data@.subrange(from as int, from + 8));
    }
    if unsigned >= 0x8000_0000_0000_0000 {
        let wide: i128 = unsigned as i128 - 0x1_0000_0000_0000_0000;
        wide as i64
    } else {
        unsigned as i64
    }
}

/// Reads the integer whose four bytes follow position `from` in `data`.
pub fn read_i32(data: &[u8], from: usize) -> (value: i32)
    requires
        from + 4 <= data.len(),
    ensures
        value == i32_from_le(data@.subrange(from as int, from + 4)),
{
    let unsigned = read_number(data, from, 4);
    proof {
        from_le_in_range(data@.subrange(from as int, from + 4));
        number_bounds(data@.subrange(from as int, from + 4));
        reveal_with_fuel(span, 5);
    }
    if unsigned >= 0x8000_0000 {
        let wide: i128 = unsigned as i128 - 0x1_0000_0000;
        wide as i32
    } else {
        unsigned as i32
    }
}

} // verus!
