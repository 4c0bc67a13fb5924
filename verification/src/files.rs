//! The names of uploaded files, and who a change is credited to.

use crate::text::{
    char_is_control, chars_of, is_control, opt_str, owned, slice_chars, string_of, trim, trimmed,
};
use vstd::prelude::*;

verus! {

/// Where the last component of a path begins: behind its last slash or backslash.
pub open spec fn leaf_start(path: Seq<char>) -> int
    decreases path.len(),
{
    if path.len() == 0 {
        0
    } else if path.last() == '/' || path.last() == '\\' {
        path.len() as int
    } else {
        leaf_start(path.drop_last())
    }
}

/// `s` with each control character replaced by an underscore.
pub open spec fn without_controls(s: Seq<char>) -> Seq<char> {
    Seq::new(
        s.len(),
        |i: int|
            if is_control(s[i]) {
                '_'
            } else {
                s[i]
            },
    )
}

/// The name that an upload is stored under: the last component of the name that
/// the client gave, with the whitespace round it dropped and each control
/// character replaced by an underscore; `upload.bin` where nothing is left.
pub open spec fn spec_sanitize_filename(raw: Seq<char>) -> Seq<char> {
    let leaf = trim(raw.subrange(leaf_start(raw), raw.len() as int));
    if leaf.len() == 0 {
        "upload.bin"@
    } else if trim(without_controls(leaf)).len() == 0 {
        "upload.bin"@
    } else {
        without_controls(leaf)
    }
}

/// The name that an upload is stored under; see [`spec_sanitize_filename`].
pub fn sanitize_filename(raw: &str) -> (name: String)
    ensures
        name@ == spec_sanitize_filename(raw@),
{
    let chars = chars_of(raw);
    let mut start: usize = chars.len();
    assert(chars@.subrange(0, start as int) == chars@);
    while start > 0 && !(chars[start - 1] == '/' || chars[start - 1] == '\\')
        invariant
            start <= chars.len(),
            leaf_start(chars@) == leaf_start(chars@.subrange(0, start as int)),
        decreases start,
    {
        assert(chars@.subrange(0, start as int).drop_last() == chars@.subrange(0, start - 1));
        start -= 1;
    }
    proof {
        if start > 0 {
            assert(chars@.subrange(0, start as int).last() == chars@[start - 1]);
        }
        assert(leaf_start(chars@) == start);
    }
    let tail = slice_chars(chars.as_slice(), start, chars.len());
    let leaf = trimmed(tail.as_slice());
    if leaf.len() == 0 {
        return owned("upload.bin");
    }
    let mut sanitized: Vec<char> = Vec::new();
    let mut i: usize = 0;
    while i < leaf.len()
        invariant
            i <= leaf.len(),
            sanitized@ == without_controls(leaf@).take(i as int),
        decreases leaf.len() - i,
    {
        if char_is_control(leaf[i]) {
            sanitized.push('_');
        } else {
            sanitized.push(leaf[i]);
        }
        i += 1;
    }
    assert(sanitized@ == without_controls(leaf@));
    if trimmed(sanitized.as_slice()).len() == 0 {
        owned("upload.bin")
    } else {
        string_of(sanitized.as_slice())
    }
}

/// `s` with a backslash put before each backslash and each double quote, as a
/// quoted header value needs it.
pub open spec fn spec_escape_filename(s: Seq<char>) -> Seq<char>
    decreases s.len(),
{
    if s.len() == 0 {
        Seq::empty()
    } else if s.last() == '\\' || s.last() == '"' {
        spec_escape_filename(s.drop_last()).push('\\').push(s.last())
    } else {
        spec_escape_filename(s.drop_last()).push(s.last())
    }
}

/// Escapes a file name for a quoted header value; see [`spec_escape_filename`].
pub fn escape_filename(value: &str) -> (escaped: String)
    ensures
        escaped@ == spec_escape_filename(value@),
{
    let chars = chars_of(value);
    let mut out: Vec<char> = Vec::new();
    let mut i: usize = 0;
    assert(chars@.take(0) =~= Seq::empty());
    while i < chars.len()
        invariant
            i <= chars.len(),
            out@ == spec_escape_filename(chars@.take(i as int)),
        decreases chars.len() - i,
    {
        assert(chars@.take(i + 1).drop_last() == chars@.take(i as int));
        assert(chars@.take(i + 1).last() == chars@[i as int]);
        if chars[i] == '\\' || chars[i] == '"' {
            out.push('\\');
        }
        out.push(chars[i]);
        i += 1;
    }
    assert(chars@.take(chars.len() as int) == chars@);
    string_of(out.as_slice())
}

/// Who a change is credited to: what the client header names, with the whitespace
/// round it dropped, or `fallback` where it names nobody.
pub open spec fn spec_actor(client: Option<Seq<char>>, fallback: Seq<char>) -> Seq<char> {
    match client {
        Some(value) => if trim(value).len() == 0 {
            fallback
        } else {
            trim(value)
        },
        None => fallback,
    }
}

/// The actor of a request, from the value of its `MCP-Client` header.
pub fn actor_from_header(client: Option<&str>, fallback: &str) -> (actor: String)
    ensures
        actor@ == spec_actor(opt_str(client), fallback@),
{
    match client {
        Some(value) => {
            let chars = chars_of(value);
            let kept = trimmed(chars.as_slice());
            if kept.len() == 0 {
                owned(fallback)
            } else {
                string_of(kept.as_slice())
            }
        },
        None => owned(fallback),
    }
}

} // verus!
