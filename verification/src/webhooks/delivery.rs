//! One delivery: the request that is sent, its signature, and what counts as
//! success.

use crate::crypto::{hmac_sha256, hmac_sha256_tag};
use crate::models::{opt_chars, WebhookRecord, WebhookView};
use crate::text::{
    all_lower_hex, chars_of, hex_lower, lemma_hex_lower_shape, push_hex, str_eq, trim, trimmed,
};
use crate::webhooks::payload::{spec_webhook_body, webhook_body, WebhookPayload, WebhookPayloadView};
use vstd::prelude::*;
use vstd::string::StringExecFns;
use vstd::utf8::encode_utf8;

verus! {

/// The seconds after which a delivery that got no answer has failed.
pub const DELIVERY_TIMEOUT_SECS: u64 = 5;

/// The header that carries the signature of a delivery.
pub fn signature_header() -> (name: &'static str)
    ensures
        name@ == "X-Lattice-Signature"@,
{
    "X-Lattice-Signature"
}

/// The type of the body of every delivery.
pub fn content_type() -> (value: &'static str)
    ensures
        value@ == "application/json"@,
{
    "application/json"
}

/// The signature of `body` under `secret`: `sha256=` and, in lower-case
/// hexadecimal, the HMAC-SHA-256 tag of the bytes of the body under the bytes of
/// the secret.
pub open spec fn spec_hmac_signature(secret: Seq<char>, body: Seq<u8>) -> Seq<char> {
    "sha256="@ + hex_lower(hmac_sha256(encode_utf8(secret), body))
}

/// A signature is `sha256=` and 64 lower-case hexadecimal digits.
pub proof fn lemma_signature_shape(secret: Seq<char>, body: Seq<u8>)
    requires
        hmac_sha256(encode_utf8(secret), body).len() == 32,
    ensures
        spec_hmac_signature(secret, body).len() == 71,
        spec_hmac_signature(secret, body).subrange(0, 7) == "sha256="@,
        all_lower_hex(spec_hmac_signature(secret, body).subrange(7, 71)),
{
    reveal_strlit("sha256=");
    let digits = hex_lower(hmac_sha256(encode_utf8(secret), body));
    lemma_hex_lower_shape(hmac_sha256(encode_utf8(secret), body));
    assert(spec_hmac_signature(secret, body).subrange(0, 7) =~= "sha256="@);
    assert(spec_hmac_signature(secret, body).subrange(7, 71) =~= digits);
}

/// The signature of `body` under `secret`: `sha256=` and 64 lower-case hexadecimal
/// digits; see [`spec_hmac_signature`].
pub fn hmac_signature(secret: &str, body: &[u8]) -> (signature: String)
    ensures
        signature@ == spec_hmac_signature(secret@, body@),
        signature@.len() == 71,
        signature@.subrange(0, 7) == "sha256="@,
        all_lower_hex(signature@.subrange(7, 71)),
{
    let tag = hmac_sha256_tag(secret.as_bytes(), body);
    proof {
        lemma_signature_shape(secret@, body@);
    }
    let mut encoded = String::from_str("sha256=");
    // A tag always comes back: the signer takes a key of any length.
    if let Some(bytes) = tag {
        push_hex(&mut encoded, bytes.as_slice());
    }
    encoded
}

/// Deliveries are signed for the platform `generic` where the subscription has a
/// secret that is more than whitespace.
pub open spec fn signing_secret(webhook: WebhookView) -> Option<Seq<char>> {
    if webhook.platform == "generic"@ {
        match webhook.secret {
            Some(secret) => if trim(secret).len() > 0 {
                Some(secret)
            } else {
                None
            },
            None => None,
        }
    } else {
        None
    }
}

/// What is sent: a POST to `url` with `body` as JSON, and the signature of the
/// body where the delivery is signed.
pub struct DeliveryRequest {
    pub url: String,
    pub body: String,
    pub signature: Option<String>,
}

pub struct DeliveryRequestView {
    pub url: Seq<char>,
    pub body: Seq<char>,
    pub signature: Option<Seq<char>>,
}

impl View for DeliveryRequest {
    type V = DeliveryRequestView;

    open spec fn view(&self) -> DeliveryRequestView {
        DeliveryRequestView {
            url: self.url@,
            body: self.body@,
            signature: opt_chars(self.signature),
        }
    }
}

/// The request that delivers `payload` to `webhook`.
pub open spec fn spec_delivery_request(webhook: WebhookView, payload: WebhookPayloadView)
    -> DeliveryRequestView {
    let body = spec_webhook_body(webhook.platform, payload);
    DeliveryRequestView {
        url: webhook.url,
        body,
        signature: match signing_secret(webhook) {
            Some(secret) => Some(spec_hmac_signature(secret, encode_utf8(body))),
            None => None,
        },
    }
}

/// The request that delivers `payload` to `webhook`; see [`spec_delivery_request`].
pub fn delivery_request(webhook: &WebhookRecord, payload: &WebhookPayload) -> (request:
    DeliveryRequest)
    ensures
        request@ == spec_delivery_request(webhook@, payload@),
{
    let body = webhook_body(webhook, payload);
    let mut signature: Option<String> = None;
    if str_eq(webhook.platform.as_str(), "generic") {
        match &webhook.secret {
            Some(secret) => {
                let chars = chars_of(secret.as_str());
                if trimmed(chars.as_slice()).len() > 0 {
                    signature = Some(hmac_signature(secret.as_str(), body.as_str().as_bytes()));
                }
            },
            None => {},
        }
    }
    DeliveryRequest { url: webhook.url.clone(), body, signature }
}

/// A delivery succeeded where the answer has a status from 200 to 299.
pub open spec fn spec_delivery_succeeded(status: u16) -> bool {
    200 <= status <= 299
}

/// Whether an answer with `status` means that the delivery succeeded.
pub fn delivery_succeeded(status: u16) -> (succeeded: bool)
    ensures
        succeeded == spec_delivery_succeeded(status),
{
    200 <= status && status <= 299
}

} // verus!
