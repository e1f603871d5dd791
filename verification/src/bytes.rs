//! Byte strings: big-endian integers, searching, copying.

use vstd::prelude::*;
use vstd::slice::slice_to_vec;

verus! {

/// The last `width` base-256 digits of `value`, most significant first.
pub open spec fn be_bytes(value: nat, width: nat) -> Seq<u8>
    decreases width,
{
    if width == 0 {
        Seq::empty()
    } else {
        be_bytes(value / 256, (width - 1) as nat).push((value % 256) as u8)
    }
}

/// The number that `digits` spell in base 256, most significant first.
pub open spec fn be_value(digits: Seq<u8>) -> nat
    decreases digits.len(),
{
    if digits.len() == 0 {
        0
    } else {
        256 * be_value(digits.drop_last()) + digits.last() as nat
    }
}

/// `256` to the power of `width`.
pub open spec fn be_limit(width: nat) -> nat
    decreases width,
{
    if width == 0 {
        1
    } else {
        256 * be_limit((width - 1) as nat)
    }
}

/// A number below `256^width` comes back from its `width` digits.
pub proof fn lemma_be_value_of_be_bytes(value: nat, width: nat)
    requires
        value < be_limit(width),
    ensures
        be_bytes(value, width).len() == width,
        be_value(be_bytes(value, width)) == value,
    decreases width,
{
    if width > 0 {
        lemma_be_value_of_be_bytes(value / 256, (width - 1) as nat);
        let digits = be_bytes(value, width);
        assert(digits.drop_last() =~= be_bytes(value / 256, (width - 1) as nat));
    }
}

/// Digits come back from the number that they spell, which is below `256^len`.
pub proof fn lemma_be_bytes_of_be_value(digits: Seq<u8>)
    ensures
        be_value(digits) < be_limit(digits.len()),
        be_bytes(be_value(digits), digits.len()) == digits,
    decreases digits.len(),
{
    if digits.len() > 0 {
        let front = digits.drop_last();
        lemma_be_bytes_of_be_value(front);
        assert(be_value(digits) / 256 == be_value(front));
        assert(be_value(digits) % 256 == digits.last());
        assert(be_bytes(be_value(digits), digits.len()) =~= front.push(digits.last()));
        assert(front.push(digits.last()) =~= digits);
    }
}

/// `be_bytes` always has the asked-for width.
pub proof fn lemma_be_bytes_len(value: nat, width: nat)
    ensures
        be_bytes(value, width).len() == width,
    decreases width,
{
    if width > 0 {
        lemma_be_bytes_len(value / 256, (width - 1) as nat);
    }
}

/// Digits of a number that is put together from a high and a low part.
proof fn lemma_be_bytes_join(high: nat, low: nat, high_width: nat, low_width: nat)
    requires
        low < be_limit(low_width),
    ensures
        be_bytes(high * be_limit(low_width) + low, high_width + low_width) == be_bytes(
            high,
            high_width,
        ) + be_bytes(low, low_width),
    decreases low_width,
{
    if low_width == 0 {
        assert(high * be_limit(0) + low == high);
        assert(be_bytes(high, high_width) + be_bytes(low, 0) =~= be_bytes(high, high_width));
    } else {
        let narrower = (low_width - 1) as nat;
        let whole = high * be_limit(low_width) + low;
        let shifted = high * be_limit(narrower);
        assert(high * (256 * be_limit(narrower)) == 256 * shifted) by (nonlinear_arith)
            requires
                shifted == high * be_limit(narrower),
        ;
        lemma_be_bytes_join(high, low / 256, high_width, narrower);
        assert(whole / 256 == shifted + low / 256);
        assert(whole % 256 == low % 256);
        assert(be_bytes(whole, high_width + low_width) =~= be_bytes(high, high_width) + be_bytes(
            low,
            low_width,
        ));
    }
}

/// Reading on never lowers the number that was read so far.
pub proof fn lemma_be_value_grows(digits: Seq<u8>, upto: int)
    requires
        0 <= upto <= digits.len(),
    ensures
        be_value(digits.take(upto)) <= be_value(digits),
    decreases digits.len(),
{
    if upto == digits.len() {
        assert(digits.take(upto) =~= digits);
    } else {
        lemma_be_value_grows(digits.drop_last(), upto);
        assert(digits.drop_last().take(upto) =~= digits.take(upto));
    }
}

/// Appends the four big-endian bytes of `value`.
pub(crate) fn push_be_u32(out: &mut Vec<u8>, value: u32)
    ensures
        final(out)@ == old(out)@ + be_bytes(value as nat, 4),
{
    proof {
        reveal_with_fuel(be_bytes, 5);
    }
    out.push((value / 0x100_0000) as u8);
    out.push((value / 0x1_0000 % 0x100) as u8);
    out.push((value / 0x100 % 0x100) as u8);
    out.push((value % 0x100) as u8);
    assert(out@ =~= old(out)@ + be_bytes(value as nat, 4));
}

/// Appends the eight big-endian bytes of `value`.
pub(crate) fn push_be_u64(out: &mut Vec<u8>, value: u64)
    ensures
        final(out)@ == old(out)@ + be_bytes(value as nat, 8),
{
    let high: u32 = (value / 0x1_0000_0000) as u32;
    let low: u32 = (value % 0x1_0000_0000) as u32;
    push_be_u32(out, high);
    push_be_u32(out, low);
    proof {
        reveal_with_fuel(be_limit, 5);
        assert(be_limit(4) == 0x1_0000_0000);
        lemma_be_bytes_join(high as nat, low as nat, 4, 4);
        assert(out@ =~= old(out)@ + be_bytes(value as nat, 8));
    }
}

/// The number that the four bytes at `at` spell, most significant first.
pub(crate) fn read_be_u32(bytes: &[u8], at: usize) -> (value: u32)
    requires
        at + 4 <= bytes@.len(),
    ensures
        value == be_value(bytes@.subrange(at as int, at + 4)),
{
    let ghost digits = bytes@.subrange(at as int, at + 4);
    proof {
        reveal_with_fuel(be_value, 5);
        assert(digits.drop_last() =~= bytes@.subrange(at as int, at + 3));
        assert(digits.drop_last().drop_last() =~= bytes@.subrange(at as int, at + 2));
        assert(digits.drop_last().drop_last().drop_last() =~= bytes@.subrange(at as int, at + 1));
    }
    bytes[at] as u32 * 0x100_0000 + bytes[at + 1] as u32 * 0x1_0000 + bytes[at + 2] as u32 * 0x100
        + bytes[at + 3] as u32
}

/// Whether two byte strings are equal.
pub(crate) fn bytes_equal(left: &[u8], right: &[u8]) -> (equal: bool)
    ensures
        equal == (left@ == right@),
{
    if left.len() != right.len() {
        return false;
    }
    let mut i: usize = 0;
    while i < left.len()
        invariant
            i <= left@.len(),
            left@.len() == right@.len(),
            left@.take(i as int) == right@.take(i as int),
        decreases left@.len() - i,
    {
        if left[i] != right[i] {
            return false;
        }
        proof {
            assert(left@.take(i + 1) =~= left@.take(i as int).push(left@[i as int]));
            assert(right@.take(i + 1) =~= right@.take(i as int).push(right@[i as int]));
        }
        i += 1;
    }
    proof {
        assert(left@.take(i as int) =~= left@);
        assert(right@.take(i as int) =~= right@);
    }
    true
}

/// `needle` stands in `haystack` at position `at`.
pub open spec fn occurs_at(haystack: Seq<u8>, needle: Seq<u8>, at: int) -> bool {
    &&& 0 <= at
    &&& at + needle.len() <= haystack.len()
    &&& haystack.subrange(at, at + needle.len()) == needle
}

/// `needle` stands somewhere in `haystack`, without a gap.
pub open spec fn occurs_in(haystack: Seq<u8>, needle: Seq<u8>) -> bool {
    exists|at: int| occurs_at(haystack, needle, at)
}

/// What holds a byte string holds every prefix of it.
pub proof fn lemma_occurs_prefix(haystack: Seq<u8>, prefix: Seq<u8>, rest: Seq<u8>)
    requires
        occurs_in(haystack, prefix + rest),
    ensures
        occurs_in(haystack, prefix),
{
    let at = choose|at: int| occurs_at(haystack, prefix + rest, at);
    let whole = haystack.subrange(at, at + (prefix + rest).len());
    assert(haystack.subrange(at, at + prefix.len()) =~= whole.take(prefix.len() as int));
    assert(whole.take(prefix.len() as int) =~= prefix);
    assert(occurs_at(haystack, prefix, at));
}

/// Whether `needle` stands somewhere in `haystack`.
pub(crate) fn contains_bytes(haystack: &[u8], needle: &[u8]) -> (found: bool)
    ensures
        found == occurs_in(haystack@, needle@),
{
    if needle.len() > haystack.len() {
        return false;
    }
    let last: usize = haystack.len() - needle.len();
    let mut at: usize = 0;
    loop
        invariant
            last + needle.len() == haystack.len(),
            at <= last,
            forall|i: int| 0 <= i < at ==> !occurs_at(haystack@, needle@, i),
        decreases last - at,
    {
        let window = vstd::slice::slice_subrange(haystack, at, at + needle.len());
        if bytes_equal(window, needle) {
            assert(occurs_at(haystack@, needle@, at as int));
            return true;
        }
        if at == last {
            assert(forall|i: int| !occurs_at(haystack@, needle@, i));
            return false;
        }
        at += 1;
    }
}

/// The byte strings of a list of vectors.
pub open spec fn chain_view(chain: Seq<Vec<u8>>) -> Seq<Seq<u8>> {
    chain.map_values(|item: Vec<u8>| item@)
}

/// The byte strings of a list of slices.
pub open spec fn slices_view(slices: Seq<&[u8]>) -> Seq<Seq<u8>> {
    slices.map_values(|item: &[u8]| item@)
}

/// The byte strings of a list, end to end.
pub open spec fn joined(parts: Seq<Seq<u8>>) -> Seq<u8>
    decreases parts.len(),
{
    if parts.len() == 0 {
        Seq::empty()
    } else {
        parts[0] + joined(parts.drop_first())
    }
}

/// A copy of a list of byte strings.
pub(crate) fn copy_chain(chain: &Vec<Vec<u8>>) -> (copy: Vec<Vec<u8>>)
    ensures
        chain_view(copy@) == chain_view(chain@),
{
    let mut copy: Vec<Vec<u8>> = Vec::new();
    let mut i: usize = 0;
    while i < chain.len()
        invariant
            i <= chain@.len(),
            copy@.len() == i,
            forall|j: int| 0 <= j < i ==> (#[trigger] copy@[j])@ == chain@[j]@,
        decreases chain@.len() - i,
    {
        copy.push(slice_to_vec(chain[i].as_slice()));
        i += 1;
    }
    assert(chain_view(copy@) =~= chain_view(chain@));
    copy
}

/// The digits of a number stand in order of weight: four bytes hold the multiples of `2^24`,
/// `2^16`, `2^8` and `1`, eight bytes hold the upper half and then the lower one, and one byte more
/// is the next digit behind those of the number without it.
pub proof fn law_big_endian_digits(value: nat, width: nat)
    ensures
        be_bytes(value, 4) == seq![
            ((value / 0x100_0000) % 256) as u8,
            ((value / 0x1_0000) % 256) as u8,
            ((value / 0x100) % 256) as u8,
            (value % 256) as u8,
        ],
        be_bytes(value, 8) == be_bytes(value / 0x1_0000_0000, 4) + be_bytes(value, 4),
        be_bytes(value, 0) == Seq::<u8>::empty(),
        be_bytes(value, width).len() == width,
        be_bytes(value, width + 1) == be_bytes(value / 256, width).push((value % 256) as u8),
{
    reveal_with_fuel(be_bytes, 9);
    lemma_be_bytes_len(value, width);
    assert(be_bytes(value, 4) =~= seq![
        ((value / 0x100_0000) % 256) as u8,
        ((value / 0x1_0000) % 256) as u8,
        ((value / 0x100) % 256) as u8,
        (value % 256) as u8,
    ]);
    assert(be_bytes(value, 8) =~= be_bytes(value / 0x1_0000_0000, 4) + be_bytes(value, 4));
}

/// Reading digits is positional: no digits are zero, and one digit more is worth `256` times what
/// stands before it and itself. There are `256` times as many numbers with one digit more.
pub proof fn law_big_endian_value(digits: Seq<u8>, digit: u8, width: nat)
    ensures
        be_value(Seq::empty()) == 0,
        be_value(digits.push(digit)) == 256 * be_value(digits) + digit,
        be_limit(0) == 1,
        be_limit(width + 1) == 256 * be_limit(width),
{
    assert(digits.push(digit).drop_last() =~= digits);
}

/// A byte string occurs in another exactly when that is something, the byte string, and something.
pub proof fn law_occurrence(haystack: Seq<u8>, needle: Seq<u8>)
    ensures
        occurs_in(haystack, needle) <==> exists|before: Seq<u8>, after: Seq<u8>|
            haystack == #[trigger] (before + needle + after),
{
    if occurs_in(haystack, needle) {
        let at = choose|at: int| occurs_at(haystack, needle, at);
        let before = haystack.take(at);
        let after = haystack.skip(at + needle.len());
        assert(haystack =~= before + haystack.subrange(at, at + needle.len()) + after);
    }
    if exists|before: Seq<u8>, after: Seq<u8>| haystack == #[trigger] (before + needle + after) {
        let (before, after) = choose|before: Seq<u8>, after: Seq<u8>|
            haystack == #[trigger] (before + needle + after);
        let at = before.len() as int;
        assert(haystack.subrange(at, at + needle.len()) =~= needle);
        assert(occurs_at(haystack, needle, at));
    }
}

/// The view of a list keeps the order and the contents of its entries.
pub proof fn law_views_keep_order(chain: Seq<Vec<u8>>, slices: Seq<&[u8]>, i: int)
    ensures
        chain_view(chain).len() == chain.len(),
        slices_view(slices).len() == slices.len(),
        0 <= i < chain.len() ==> chain_view(chain)[i] == chain[i]@,
        0 <= i < slices.len() ==> slices_view(slices)[i] == slices[i]@,
{
}

/// Joining is concatenation: nothing for no parts, the part for one, and for two lists end to end
/// the one's bytes and then the other's.
pub proof fn law_joined_concatenates(first: Seq<Seq<u8>>, second: Seq<Seq<u8>>, part: Seq<u8>)
    ensures
        joined(Seq::empty()) == Seq::<u8>::empty(),
        joined(seq![part]) == part,
        joined(first + second) == joined(first) + joined(second),
    decreases first.len(),
{
    let one = seq![part];
    assert(one.drop_first().len() == 0);
    assert(joined(one.drop_first()) =~= Seq::<u8>::empty());
    assert(joined(one) =~= part);
    if first.len() == 0 {
        assert(first + second =~= second);
        assert(joined(first) + joined(second) =~= joined(second));
    } else {
        law_joined_concatenates(first.drop_first(), second, part);
        assert((first + second).drop_first() =~= first.drop_first() + second);
        assert(joined(first + second) =~= joined(first) + joined(second));
    }
}

} // verus!
