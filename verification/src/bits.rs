//! Single-bit access to register words, through the `bitfield` crate.
use vstd::prelude::*;

verus! {

/// Whether bit `i` of `word` is set.
pub open spec fn bit_is_set(word: u32, i: u32) -> bool {
    word & (1u32 << i) != 0
}

/// `word` with bit `i` set to `value` and every other bit unchanged.
pub open spec fn with_bit(word: u32, i: u32, value: bool) -> u32 {
    if value {
        word | (1u32 << i)
    } else {
        word & !(1u32 << i)
    }
}

/// Reads bit `i` of `word` with `bitfield::Bit::bit`, which the `bitfield`
/// crate implements for `u32` as `bit_range(i, i) != 0`. The contract claims
/// that the result tells whether that bit is set. The crate panics on a bit
/// index beyond the word, which `requires` leaves out.
#[verifier::external_body]
pub(crate) fn get_bit(word: u32, i: usize) -> (r: bool)
    requires
        i < 32,
    ensures
        r == bit_is_set(word, i as u32),
{
    bitfield::Bit::bit(&word, i)
}

/// Writes bit `i` of `word` with `bitfield::BitMut::set_bit`, which the
/// `bitfield` crate implements for `u32` as `set_bit_range(i, i, value as u8)`.
/// The contract claims that bit `i` of the result is `value` and that every
/// other bit is that of `word`. The crate panics on a bit index beyond the
/// word, which `requires` leaves out.
#[verifier::external_body]
pub(crate) fn set_bit(word: u32, i: usize, value: bool) -> (r: u32)
    requires
        i < 32,
    ensures
        r == with_bit(word, i as u32, value),
{
    let mut out = word;
    bitfield::BitMut::set_bit(&mut out, i, value);
    out
}

/// Writing bit `i` and reading it back gives the value written, and leaves
/// every other bit as it was.
pub proof fn lemma_with_bit(word: u32, i: u32, value: bool)
    requires
        i < 32,
    ensures
        bit_is_set(with_bit(word, i, value), i) == value,
        forall|j: u32|
            j < 32 && j != i ==> #[trigger] bit_is_set(with_bit(word, i, value), j) == bit_is_set(
                word,
                j,
            ),
{
    assert(i < 32 ==> ((word | (1u32 << i)) & (1u32 << i) != 0) && ((word & !(1u32 << i)) & (1u32
        << i) == 0)) by (bit_vector);
    assert forall|j: u32| j < 32 && j != i implies #[trigger] bit_is_set(
        with_bit(word, i, value),
        j,
    ) == bit_is_set(word, j) by {
        assert(i < 32 && j < 32 && i != j ==> ((word | (1u32 << i)) & (1u32 << j) != 0 <==> word & (
        1u32 << j) != 0) && ((word & !(1u32 << i)) & (1u32 << j) != 0 <==> word & (1u32 << j) != 0))
            by (bit_vector);
    }
}

} // verus!
