//! The pairing code a phone uses to enrol itself.
//!
//! Registering a device takes both parties: the owner authorises the request, and the
//! device proves that it holds the key by signing a challenge bound to that owner. A
//! phone cannot hold the identity key, so what crosses is a short-lived identity token:
//! the owner's half, delegated for a few minutes.

use crate::encoding::{b64_encode, base64url, base64url_value, is_base64url_char};
use crate::json;
use crate::json::json_string;
use vstd::prelude::*;
use vstd::utf8::*;

verus! {

/// What a phone needs to enrol itself.
#[derive(Debug, Clone)]
pub struct PairingCode {
    pub server_url: String,
    pub identity_id: String,
    /// An identity token that may write devices. Minutes, not days.
    pub identity_token: String,
}

/// The mark in front of every code.
pub const PAIRING_MARK: &'static str = "HT1.";

/// The document inside a code. Short keys: a person types or pastes this, so every
/// character counts.
pub open spec fn document(code: PairingCode) -> Seq<char> {
    "{\"u\":"@ + json_string(code.server_url@) + ",\"i\":"@ + json_string(code.identity_id@)
        + ",\"t\":"@ + json_string(code.identity_token@) + "}"@
}

/// `HT1.` and the base64url form of the document. The mark means that a truncated paste
/// fails at once and legibly; the rest holds no padding that a paste could lose, and
/// decodes to the document.
pub fn encode(code: &PairingCode) -> (text: String)
    ensures
        text@ == PAIRING_MARK@ + base64url(encode_utf8(document(*code))),
        forall|i: int|
            PAIRING_MARK@.len() <= i < text@.len() ==> is_base64url_char(#[trigger] text@[i]),
        base64url_value(text@.skip(PAIRING_MARK@.len() as int)) == Some(
            encode_utf8(document(*code)),
        ),
{
    let json = "{\"u\":".to_owned().concat(json::string(code.server_url.as_str()).as_str());
    let json = json.concat(",\"i\":").concat(json::string(code.identity_id.as_str()).as_str());
    let json = json.concat(",\"t\":").concat(json::string(code.identity_token.as_str()).as_str());
    let json = json.concat("}");
    let body = b64_encode(json.as_str().as_bytes());
    let text = PAIRING_MARK.to_owned().concat(body.as_str());
    proof {
        assert(json@ =~= document(*code));
        assert(text@.skip(PAIRING_MARK@.len() as int) =~= body@);
        assert forall|i: int|
            PAIRING_MARK@.len() <= i < text@.len() implies is_base64url_char(
            #[trigger] text@[i],
        ) by {
            assert(text@[i] == body@[i - PAIRING_MARK@.len()]);
        }
    }
    text
}

} // verus!
