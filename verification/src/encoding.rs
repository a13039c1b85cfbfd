//! Deciding whether a byte buffer is well-formed UTF-8 text.
//!
//! The server interprets each request buffer as text and answers with a
//! bad-request response when the bytes are not valid UTF-8.  The checker here
//! is proved against [`vstd::utf8::valid_utf8`], the library specification of
//! UTF-8 well-formedness.

use vstd::prelude::*;
use vstd::utf8::{
    decode_first_codepoint, is_continuation_byte, is_leading_byte_width_1,
    is_leading_byte_width_2, is_leading_byte_width_3, is_leading_byte_width_4,
    length_of_first_scalar, not_overlong_encoding, not_surrogate, pop_first_scalar,
    valid_first_scalar, valid_leading_and_continuation_bytes_first_codepoint, valid_utf8,
};

verus! {

/// Width in bytes of the scalar encoding starting at `s[i]`, or 0 when no
/// well-formed scalar encoding starts there.
fn first_scalar_width(s: &[u8], i: usize) -> (w: usize)
    requires
        i < s@.len(),
    ensures
        w != 0 ==> valid_first_scalar(s@.skip(i as int)) && w == length_of_first_scalar(
            s@.skip(i as int),
        ) && i + w <= s@.len(),
        w == 0 ==> !valid_first_scalar(s@.skip(i as int)),
{
    let ghost suf = s@.skip(i as int);
    assert(suf.len() == s@.len() - i);
    assert(suf[0] == s@[i as int]);
    let b0 = s[i];
    let rest = s.len() - i;
    if b0 < 0x80 {
        assert(((b0 & 0x7f) as u32) < 0xd800) by (bit_vector);
        assert(valid_first_scalar(suf));
        1
    } else if 0xc0 <= b0 && b0 <= 0xdf {
        if rest < 2 {
            return 0;
        }
        assert(suf[1] == s@[i as int + 1]);
        let b1 = s[i + 1];
        if !(0x80 <= b1 && b1 <= 0xbf) {
            return 0;
        }
        let cp: u32 = (((b0 & 0x1f) as u32) << 6) | ((b1 & 0x3f) as u32);
        assert(cp == decode_first_codepoint(suf));
        if cp < 0x80 {
            return 0;
        }
        assert(((((b0 & 0x1f) as u32) << 6) | ((b1 & 0x3f) as u32)) < 0xd800) by (bit_vector);
        assert(valid_first_scalar(suf));
        2
    } else if 0xe0 <= b0 && b0 <= 0xef {
        if rest < 3 {
            return 0;
        }
        assert(suf[1] == s@[i as int + 1]);
        assert(suf[2] == s@[i as int + 2]);
        let b1 = s[i + 1];
        let b2 = s[i + 2];
        if !(0x80 <= b1 && b1 <= 0xbf) || !(0x80 <= b2 && b2 <= 0xbf) {
            return 0;
        }
        let cp: u32 = (((b0 & 0x0f) as u32) << 12) | (((b1 & 0x3f) as u32) << 6) | ((b2
            & 0x3f) as u32);
        assert(cp == decode_first_codepoint(suf));
        if cp < 0x800 || (0xd800 <= cp && cp <= 0xdfff) {
            return 0;
        }
        assert(valid_first_scalar(suf));
        3
    } else if 0xf0 <= b0 && b0 <= 0xf7 {
        if rest < 4 {
            return 0;
        }
        assert(suf[1] == s@[i as int + 1]);
        assert(suf[2] == s@[i as int + 2]);
        assert(suf[3] == s@[i as int + 3]);
        let b1 = s[i + 1];
        let b2 = s[i + 2];
        let b3 = s[i + 3];
        if !(0x80 <= b1 && b1 <= 0xbf) || !(0x80 <= b2 && b2 <= 0xbf) || !(0x80 <= b3 && b3
            <= 0xbf) {
            return 0;
        }
        let cp: u32 = (((b0 & 0x07) as u32) << 18) | (((b1 & 0x3f) as u32) << 12) | (((b2
            & 0x3f) as u32) << 6) | ((b3 & 0x3f) as u32);
        assert(cp == decode_first_codepoint(suf));
        if cp < 0x10000 || cp > 0x10ffff {
            return 0;
        }
        assert(valid_first_scalar(suf));
        4
    } else {
        assert(!valid_leading_and_continuation_bytes_first_codepoint(suf));
        0
    }
}

/// Whether `s` is valid UTF-8, proved equal to the specification
/// [`valid_utf8`].
pub fn check_utf8(s: &[u8]) -> (b: bool)
    ensures
        b == valid_utf8(s@),
{
    let mut i: usize = 0;
    assert(s@.skip(0) =~= s@);
    while i < s.len()
        invariant
            i <= s@.len(),
            valid_utf8(s@) == valid_utf8(s@.skip(i as int)),
        decreases s@.len() - i,
    {
        let w = first_scalar_width(s, i);
        if w == 0 {
            assert(!valid_utf8(s@.skip(i as int)));
            return false;
        }
        assert(valid_utf8(s@.skip(i as int)) == valid_utf8(s@.skip(i as int + w))) by {
            assert(pop_first_scalar(s@.skip(i as int)) =~= s@.skip(i as int + w));
        }
        i = i + w;
    }
    assert(s@.skip(i as int) =~= Seq::<u8>::empty());
    assert(valid_utf8(s@.skip(i as int)));
    true
}

} // verus!
