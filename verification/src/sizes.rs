//! Sizes in bytes.
use vstd::prelude::*;
use vstd::string::*;

verus! {

/// The number of bytes that `size::Size::from_bytes` keeps of an integer.
pub uninterp spec fn size_from_bytes(bytes: int) -> i64;

/// The text that `humansize` writes for a number of bytes, in decimal units.
pub uninterp spec fn size_text(bytes: u64) -> Seq<char>;

/// Integers up to this one are kept exactly.
pub const EXACT_BYTES: u64 = 0x20_0000_0000_0000;

/// The number of bytes that is kept of an integer: up to 2 to the power of 53 the
/// integer itself.
pub open spec fn kept(bytes: int) -> i64 {
    if 0 <= bytes <= EXACT_BYTES {
        bytes as i64
    } else {
        size_from_bytes(bytes)
    }
}

/// `size::Size::from_bytes` of a length, and `Size::bytes` of that. The value goes
/// through a floating-point number: up to 2 to the power of 53 it stays as it is,
/// and it is never negative.
#[verifier::external_body]
pub(crate) fn bytes_kept(bytes: u64) -> (r: i64)
    ensures
        r == size_from_bytes(bytes as int),
        r == kept(bytes as int),
        r >= 0,
{
    size::Size::from_bytes(bytes).bytes()
}

/// `+` on two `size::Size`, and `Size::bytes` of the sum. The sum goes through
/// `Size::from_bytes`; up to 2 to the power of 53 it is exact.
#[verifier::external_body]
pub(crate) fn size_sum(a: i64, b: i64) -> (r: i64)
    requires
        i64::MIN <= a + b <= i64::MAX,
    ensures
        r == size_from_bytes(a + b),
        r == kept(a + b),
{
    (size::Size::from_const(a) + size::Size::from_const(b)).bytes()
}

/// `humansize::format_size` in decimal units.
#[verifier::external_body]
pub(crate) fn write_size(bytes: u64) -> (r: String)
    ensures
        r@ == size_text(bytes),
{
    humansize::format_size(bytes, humansize::DECIMAL)
}

}
