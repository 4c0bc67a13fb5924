//! Who a request is counted against: a digest of its bearer token where
//! requests authenticate, else the client address that a proxy reported.

use crate::crypto::{sha256, sha256_digest};
use crate::text::{
    all_lower_hex, ascii_lower, chars_eq, chars_of, find_char, first_index_of, hex_lower,
    lemma_hex_lower_shape, opt_str, push_hex, slice_chars, string_of, to_ascii_lower, trim, trimmed,
};
use vstd::prelude::*;
use vstd::slice::slice_subrange;
use vstd::string::StringExecFns;
use vstd::utf8::encode_utf8;

verus! {

/// The token of an `Authorization` value of the form scheme, one space, token: the
/// scheme is `bearer` in any case, and the token, with the whitespace round it
/// dropped, is not empty.
pub open spec fn spec_parse_bearer_token(value: Seq<char>) -> Option<Seq<char>> {
    let space = first_index_of(value, ' ');
    if space >= value.len() {
        None
    } else {
        let scheme = value.subrange(0, space);
        let token = trim(value.subrange(space + 1, value.len() as int));
        if ascii_lower(scheme) != ascii_lower("bearer"@) {
            None
        } else if token.len() == 0 {
            None
        } else {
            Some(token)
        }
    }
}

/// The bearer token of an `Authorization` value; see [`spec_parse_bearer_token`].
pub fn parse_bearer_token(value: &str) -> (token: Option<String>)
    ensures
        match token {
            Some(found) => spec_parse_bearer_token(value@) == Some(found@),
            None => spec_parse_bearer_token(value@) is None,
        },
{
    let chars = chars_of(value);
    let space = find_char(chars.as_slice(), ' ');
    if space >= chars.len() {
        return None;
    }
    let scheme = slice_chars(chars.as_slice(), 0, space);
    let rest = slice_chars(chars.as_slice(), space + 1, chars.len());
    let token = trimmed(rest.as_slice());
    let wanted = chars_of("bearer");
    let lowered = to_ascii_lower(scheme.as_slice());
    let lowered_wanted = to_ascii_lower(wanted.as_slice());
    if !chars_eq(lowered.as_slice(), lowered_wanted.as_slice()) {
        return None;
    }
    if token.len() == 0 {
        return None;
    }
    Some(string_of(token.as_slice()))
}

/// The first twelve bytes of the SHA-256 digest of the UTF-8 form of `input`, in
/// lower-case hexadecimal.
pub open spec fn spec_hash_prefix(input: Seq<char>) -> Seq<char> {
    hex_lower(sha256(encode_utf8(input)).take(12))
}

/// A digest of `input` that stands for it: 24 lower-case hexadecimal digits; see
/// [`spec_hash_prefix`].
pub fn hash_prefix(input: &str) -> (prefix: String)
    ensures
        prefix@ == spec_hash_prefix(input@),
        prefix@.len() == 24,
        all_lower_hex(prefix@),
{
    let digest = sha256_digest(input.as_bytes());
    proof {
        lemma_hex_lower_shape(digest@.take(12));
    }
    let mut output = String::new();
    let head = slice_subrange(digest.as_slice(), 0, 12);
    assert(head@ == digest@.take(12));
    push_hex(&mut output, head);
    assert(Seq::<char>::empty() + hex_lower(head@) =~= hex_lower(head@));
    output
}

/// The first entry of a comma-separated header value, with the whitespace round it
/// dropped, if it is not empty.
pub open spec fn spec_extract_first_ip(value: Seq<char>) -> Option<Seq<char>> {
    let first = trim(value.subrange(0, first_index_of(value, ',')));
    if first.len() == 0 {
        None
    } else {
        Some(first)
    }
}

/// The first entry of a header value; see [`spec_extract_first_ip`].
pub fn extract_first_ip(value: &str) -> (ip: Option<String>)
    ensures
        match ip {
            Some(found) => spec_extract_first_ip(value@) == Some(found@),
            None => spec_extract_first_ip(value@) is None,
        },
{
    let chars = chars_of(value);
    let comma = find_char(chars.as_slice(), ',');
    let head = slice_chars(chars.as_slice(), 0, comma);
    let first = trimmed(head.as_slice());
    if first.len() == 0 {
        None
    } else {
        Some(string_of(first.as_slice()))
    }
}

/// The client address that a proxy reported: the first entry of the forwarded-for
/// chain, where the request carries one.
pub open spec fn spec_first_forwarded_ip(forwarded_for: Option<Seq<char>>) -> Option<Seq<char>> {
    match forwarded_for {
        Some(value) => spec_extract_first_ip(value),
        None => None,
    }
}

/// The client address that a proxy reported; see [`spec_first_forwarded_ip`].
pub fn first_forwarded_ip(forwarded_for: Option<&str>) -> (ip: Option<String>)
    ensures
        match ip {
            Some(found) => spec_first_forwarded_ip(opt_str(forwarded_for)) == Some(found@),
            None => spec_first_forwarded_ip(opt_str(forwarded_for)) is None,
        },
{
    match forwarded_for {
        Some(value) => extract_first_ip(value),
        None => None,
    }
}

/// The bearer token that a request carries, if it carries one.
pub open spec fn bearer_of(authorization: Option<Seq<char>>) -> Option<Seq<char>> {
    match authorization {
        Some(value) => spec_parse_bearer_token(value),
        None => None,
    }
}

/// The identity of a request. Where requests authenticate, `token:` and the digest
/// prefix of the bearer token, or `token:missing` without one; never the token
/// itself. Where they do not, `ip:` and the first address of the forwarded-for
/// chain, or `ip:anonymous` where there is none.
pub open spec fn spec_request_identity(
    authorization: Option<Seq<char>>,
    forwarded_for: Option<Seq<char>>,
    auth_enabled: bool,
) -> Seq<char> {
    if auth_enabled {
        match bearer_of(authorization) {
            Some(token) => "token:"@ + spec_hash_prefix(token),
            None => "token:missing"@,
        }
    } else {
        match spec_first_forwarded_ip(forwarded_for) {
            Some(ip) => "ip:"@ + ip,
            None => "ip:anonymous"@,
        }
    }
}

/// The identity that a request is counted against, from the values of its
/// `Authorization` and `X-Forwarded-For` headers. The identity of a token is
/// `token:` and 24 lower-case hexadecimal digits.
pub fn request_identity(
    authorization: Option<&str>,
    forwarded_for: Option<&str>,
    auth_enabled: bool,
) -> (identity: String)
    ensures
        identity@ == spec_request_identity(
            opt_str(authorization),
            opt_str(forwarded_for),
            auth_enabled,
        ),
        auth_enabled && bearer_of(opt_str(authorization)) is Some ==> {
            &&& identity@.len() == 30
            &&& identity@.subrange(0, 6) == "token:"@
            &&& all_lower_hex(identity@.subrange(6, 30))
        },
{
    if auth_enabled {
        let token = match authorization {
            Some(value) => parse_bearer_token(value),
            None => None,
        };
        return match token {
            Some(token) => {
                let mut identity = String::from_str("token:");
                let prefix = hash_prefix(token.as_str());
                identity.append(prefix.as_str());
                proof {
                    reveal_strlit("token:");
                    assert(identity@.subrange(0, 6) =~= "token:"@);
                    assert(identity@.subrange(6, 30) =~= prefix@);
                }
                identity
            },
            None => String::from_str("token:missing"),
        };
    }
    match first_forwarded_ip(forwarded_for) {
        Some(ip) => {
            let mut identity = String::from_str("ip:");
            identity.append(ip.as_str());
            identity
        },
        None => String::from_str("ip:anonymous"),
    }
}

} // verus!
