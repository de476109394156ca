//! Minting of opaque identifiers (anti-forgery state tokens and session
//! identifiers): an unguessable random part, followed by a fixed-width
//! hexadecimal serial suffix that makes every minted identifier provably
//! distinct from every earlier one.

use vstd::prelude::*;

verus! {

use crate::encoding::ascii_to_string;
use crate::encoding::chars_of;
use crate::encoding::hex_bytes;
use crate::encoding::lemma_chars_of_injective;
use crate::encoding::lemma_hex_bytes_ascii;
use crate::encoding::lemma_hex_bytes_injective;
use crate::encoding::lemma_hex_bytes_len;
use crate::encoding::lemma_pow16_16;
use crate::encoding::render_hex;
use vstd::string::StringExecFns;

/// `t` ends in the sixteen-digit hexadecimal rendering of `serial`.
pub open spec fn token_shape(t: Seq<char>, serial: u64) -> bool {
    t.len() >= 16 && t.subrange(t.len() - 16, t.len() as int) == chars_of(
        hex_bytes(serial as nat, 16),
    )
}

/// Some serial below `bound` gives `t` its suffix.
pub open spec fn token_serial_below(t: Seq<char>, bound: u64) -> bool {
    exists|k: u64| k < bound && #[trigger] token_shape(t, k)
}

/// The unguessable part of a minted token.
///
/// Relies on `oauth2::CsrfToken::new_random`: a new random, base64-encoded
/// 128-bit token. Nothing is assumed about the returned text.
#[verifier::external_body]
fn fresh_random_text() -> String {
    oauth2::CsrfToken::new_random().secret().clone()
}

/// A new token: random text followed by the hexadecimal suffix for `serial`.
pub fn mint_token(serial: u64) -> (t: String)
    ensures
        token_shape(t@, serial),
{
    let mut t = fresh_random_text();
    let suffix_bytes = render_hex(serial, 16);
    proof {
        lemma_hex_bytes_ascii(serial as nat, 16);
        lemma_hex_bytes_len(serial as nat, 16);
    }
    let suffix = ascii_to_string(suffix_bytes);
    t.append(suffix.as_str());
    proof {
        assert(t@.subrange(t@.len() - 16, t@.len() as int) =~= chars_of(
            hex_bytes(serial as nat, 16),
        ));
    }
    t
}

/// Tokens whose suffixes render distinct serials are distinct.
pub proof fn lemma_distinct_serials_distinct_tokens(
    t1: Seq<char>,
    s1: u64,
    t2: Seq<char>,
    s2: u64,
)
    requires
        token_shape(t1, s1),
        token_shape(t2, s2),
        s1 != s2,
    ensures
        t1 != t2,
{
    if t1 == t2 {
        lemma_hex_bytes_len(s1 as nat, 16);
        lemma_hex_bytes_len(s2 as nat, 16);
        assert(chars_of(hex_bytes(s1 as nat, 16)) == chars_of(hex_bytes(s2 as nat, 16)));
        lemma_chars_of_injective(hex_bytes(s1 as nat, 16), hex_bytes(s2 as nat, 16));
        lemma_pow16_16();
        lemma_hex_bytes_injective(s1 as nat, s2 as nat, 16);
        assert(false);
    }
}

} // verus!
