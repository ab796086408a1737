//! Latin-1 text decoding.
//!
//! Both result files carry Latin-1 text: the `.res` summary as a whole and
//! the fixed name buffers of the `.bin` dataset. Latin-1 maps every byte to
//! the character with the same code point, so decoding is total.

use vstd::prelude::*;

use encoding::Encoding;

verus! {

/// The characters denoted by a Latin-1 byte string: each byte names the
/// character with its own code point.
pub open spec fn latin1_chars(b: Seq<u8>) -> Seq<char> {
    Seq::new(b.len(), |i: int| b[i] as char)
}

/// Relies on encoding's ISO_8859_1 codec: its forward index maps every
/// byte to the character with the same code point and rejects none, so the
/// decode cannot fail and replacement never happens.
#[verifier::external_body]
pub fn latin1_a_texto(b: &[u8]) -> (r: String)
    ensures
        r@ == latin1_chars(b@),
{
    match encoding::all::ISO_8859_1.decode(b, encoding::DecoderTrap::Replace) {
        Ok(s) => s,
        Err(_) => String::new(),
    }
}

} // verus!
