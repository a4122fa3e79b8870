//! Rendering numbers and playback times as text.

use vstd::prelude::*;

verus! {

/// The ASCII digit for a value below ten.
pub open spec fn digit_byte(d: int) -> u8 {
    (0x30 + d) as u8
}

/// The decimal digits of a non-negative number, most significant first.
pub open spec fn dec_bytes(n: int) -> Seq<u8>
    recommends
        n >= 0,
    decreases n,
{
    if n < 10 {
        seq![digit_byte(n)]
    } else {
        dec_bytes(n / 10).push(digit_byte(n % 10))
    }
}

/// The decimal digits of a non-negative number, zero-padded to width two.
pub open spec fn padded2_bytes(n: int) -> Seq<u8> {
    if 0 <= n < 10 {
        seq![0x30u8, digit_byte(n)]
    } else {
        dec_bytes(n)
    }
}

/// A playback time in seconds rendered as zero-padded minutes and seconds
/// separated by a colon.
pub open spec fn time_bytes(seconds: int) -> Seq<u8> {
    padded2_bytes(seconds / 60) + seq![0x3Au8] + padded2_bytes(seconds % 60)
}

/// ASCII bytes read as characters, one to one.
pub open spec fn ascii_chars(s: Seq<u8>) -> Seq<char> {
    s.map_values(|b: u8| b as char)
}

/// Every decimal digit byte is an ASCII digit.
pub proof fn lemma_dec_bytes_ascii(n: int)
    requires
        n >= 0,
    ensures
        dec_bytes(n).len() >= 1,
        forall|i: int|
            0 <= i < dec_bytes(n).len() ==> 0x30 <= #[trigger] dec_bytes(n)[i] <= 0x39,
    decreases n,
{
    if n >= 10 {
        lemma_dec_bytes_ascii(n / 10);
    }
}

/// Relies on `String::from_utf8`: a vector of bytes that is valid UTF-8
/// becomes the string of exactly those bytes, and ASCII bytes decode to
/// the characters with the same code, one byte each.
#[verifier::external_body]
fn ascii_string(v: Vec<u8>) -> (r: String)
    requires
        forall|i: int| 0 <= i < v@.len() ==> v@[i] < 0x80,
    ensures
        r@ == ascii_chars(v@),
{
    match String::from_utf8(v) {
        Ok(s) => s,
        Err(_) => String::new(),
    }
}

/// Appends the decimal digits of `n` to `v`.
fn push_dec(v: &mut Vec<u8>, n: u32)
    ensures
        final(v)@ == old(v)@ + dec_bytes(n as int),
    decreases n,
{
    if n >= 10 {
        push_dec(v, n / 10);
    }
    v.push(0x30u8 + (n % 10) as u8);
    proof {
        assert(final(v)@ =~= old(v)@ + dec_bytes(n as int));
    }
}

/// Appends the decimal digits of `n`, zero-padded to width two, to `v`.
fn push_padded2(v: &mut Vec<u8>, n: u32)
    ensures
        final(v)@ == old(v)@ + padded2_bytes(n as int),
{
    if n < 10 {
        v.push(0x30u8);
        v.push(0x30u8 + n as u8);
        proof {
            assert(final(v)@ =~= old(v)@ + padded2_bytes(n as int));
        }
    } else {
        push_dec(v, n);
    }
}

/// A playback time in whole seconds rendered as `mm:ss` (minutes grow past
/// two digits when they must).
pub fn format_playback_time(seconds: u32) -> (r: String)
    ensures
        r@ == ascii_chars(time_bytes(seconds as int)),
{
    let mut v: Vec<u8> = Vec::new();
    push_padded2(&mut v, seconds / 60);
    v.push(0x3Au8);
    push_padded2(&mut v, seconds % 60);
    proof {
        assert(v@ =~= time_bytes(seconds as int));
        lemma_dec_bytes_ascii(seconds as int / 60);
        lemma_dec_bytes_ascii(seconds as int % 60);
    }
    ascii_string(v)
}

/// The text ` of ` that separates a track's number from the total.
pub open spec fn of_separator() -> Seq<u8> {
    seq![0x20u8, 0x6Fu8, 0x66u8, 0x20u8]
}

/// A track's position rendered as `n of m`.
pub fn format_track_position(n: u32, m: u32) -> (r: String)
    ensures
        r@ == ascii_chars(dec_bytes(n as int) + of_separator() + dec_bytes(m as int)),
{
    let mut v: Vec<u8> = Vec::new();
    push_dec(&mut v, n);
    v.push(0x20u8);
    v.push(0x6Fu8);
    v.push(0x66u8);
    v.push(0x20u8);
    push_dec(&mut v, m);
    proof {
        assert(v@ =~= dec_bytes(n as int) + of_separator() + dec_bytes(m as int));
        lemma_dec_bytes_ascii(n as int);
        lemma_dec_bytes_ascii(m as int);
    }
    ascii_string(v)
}

} // verus!
