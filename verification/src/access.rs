//! The doorkeeper of the daemon: HTTP Basic credentials, asked for only
//! where a token is set.

use base64::Engine;
use vstd::prelude::*;
use vstd::string::*;
use vstd::utf8::*;

use crate::text::{same_text, Text};

verus! {

/// What `Engine::encode` of the `STANDARD` engine makes of the UTF-8 bytes of
/// a text.
pub uninterp spec fn base64_of(text: Seq<char>) -> Seq<char>;

/// `general_purpose::STANDARD.encode`: the base64 form of the UTF-8 bytes of
/// `text`, which depends on the text alone. A text whose form would outgrow the
/// address space is left out.
#[verifier::external_body]
fn standard_base64(text: &str) -> (r: String)
    requires
        encode_utf8(text@).len() <= usize::MAX / 4,
    ensures
        r@ == base64_of(text@),
{
    base64::engine::general_purpose::STANDARD.encode(text)
}

/// The longest token, in characters, whose login is sure to have a base64 form
/// that can be held.
pub const TOKEN_MAX: usize = 0x0800_0000;

proof fn lemma_utf8_len(text: Text)
    ensures
        encode_utf8(text).len() <= 4 * text.len(),
    decreases text.len(),
{
    if text.len() > 0 {
        lemma_utf8_len(text.drop_first());
    }
}

/// The one name that the doorkeeper knows, with the token as its password.
pub open spec fn login(token: Text) -> Text {
    "cobb:"@ + token
}

/// The credentials that the doorkeeper wants, given the encoded login.
pub open spec fn wanted(encoded: Text) -> Text {
    "Basic "@ + encoded
}

/// Whether credentials pass: where no token is set, or an empty one, all do and
/// none are needed; else they must be the ones that are wanted.
pub open spec fn let_through(token: Option<Text>, supplied: Option<Text>) -> bool {
    match token {
        None => true,
        Some(t) => t.len() == 0 || supplied == Some(wanted(base64_of(login(t)))),
    }
}

/// Whether the credentials are the ones wanted for the encoded login.
pub fn credentials_match(encoded: &str, supplied: Option<&str>) -> (r: bool)
    ensures
        r == (supplied matches Some(s) && s@ == wanted(encoded@)),
{
    match supplied {
        Some(s) => same_text("Basic ".to_string().concat(encoded).as_str(), s),
        None => false,
    }
}

/// Whether a request with the credentials `supplied` is let through.
pub fn authorised(token: Option<&str>, supplied: Option<&str>) -> (r: bool)
    requires
        token matches Some(t) ==> t@.len() <= TOKEN_MAX,
    ensures
        r == let_through(
            match token {
                Some(t) => Some(t@),
                None => None,
            },
            match supplied {
                Some(s) => Some(s@),
                None => None,
            },
        ),
{
    match token {
        None => true,
        Some(t) => {
            if t.is_empty() {
                return true;
            }
            let plain = "cobb:".to_string().concat(t);
            proof {
                reveal_strlit("cobb:");
                lemma_utf8_len(plain@);
            }
            credentials_match(standard_base64(plain.as_str()).as_str(), supplied)
        },
    }
}

} // verus!
