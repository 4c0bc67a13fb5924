//! The address of the store, as it is handed to the driver.

use crate::text::{
    char_is_ascii_alpha, chars_of, chars_start_with, chars_start_with_str, find_char,
    first_index_of, is_ascii_alpha, slice_chars, starts_with, string_of,
};
use vstd::prelude::*;

verus! {

/// `s` with every `from` replaced by `to`.
pub open spec fn replace_char(s: Seq<char>, from: char, to: char) -> Seq<char> {
    Seq::new(
        s.len(),
        |i: int|
            if s[i] == from {
                to
            } else {
                s[i]
            },
    )
}

/// The path begins with the letter of a drive and a colon.
pub open spec fn has_drive_prefix(path: Seq<char>) -> bool {
    path.len() >= 2 && is_ascii_alpha(path[0]) && path[1] == ':'
}

/// The path of a SQLite address in the form that the driver reads: backslashes
/// become slashes, the prefix of a verbatim path becomes one slash, and a path
/// that begins with a drive gets a slash before it.
pub open spec fn spec_sqlite_path(path: Seq<char>) -> Seq<char> {
    let slashed = replace_char(path, '\\', '/');
    let plain = if starts_with(slashed, "//?/"@) {
        seq!['/'] + slashed.subrange("//?/"@.len() as int, slashed.len() as int)
    } else {
        slashed
    };
    if has_drive_prefix(plain) {
        seq!['/'] + plain
    } else {
        plain
    }
}

/// A SQLite address with its path normalized: what follows the first `?` is the
/// query and stays as it is. Any other address is left alone.
pub open spec fn spec_normalize_sqlite_db_url_path(db_url: Seq<char>) -> Seq<char> {
    if !starts_with(db_url, "sqlite://"@) {
        db_url
    } else {
        let rest = db_url.subrange("sqlite://"@.len() as int, db_url.len() as int);
        let mark = first_index_of(rest, '?');
        let path = spec_sqlite_path(rest.subrange(0, mark));
        if mark < rest.len() {
            "sqlite://"@ + path + seq!['?'] + rest.subrange(mark + 1, rest.len() as int)
        } else {
            "sqlite://"@ + path
        }
    }
}

/// The address that the store is opened with: a SQLite address has its path
/// normalized and, where it has no query, asks for the file to be created. Any
/// other address is left alone.
pub open spec fn spec_normalized_db_url(db_url: Seq<char>) -> Seq<char> {
    if !starts_with(db_url, "sqlite://"@) {
        db_url
    } else {
        let normalized = spec_normalize_sqlite_db_url_path(db_url);
        if normalized.contains('?') {
            normalized
        } else {
            normalized + "?mode=rwc"@
        }
    }
}

fn replaced(chars: &[char], from: char, to: char) -> (out: Vec<char>)
    ensures
        out@ == replace_char(chars@, from, to),
{
    let mut out: Vec<char> = Vec::new();
    let mut i: usize = 0;
    while i < chars.len()
        invariant
            i <= chars.len(),
            out@ == replace_char(chars@, from, to).take(i as int),
        decreases chars.len() - i,
    {
        if chars[i] == from {
            out.push(to);
        } else {
            out.push(chars[i]);
        }
        i += 1;
    }
    out
}

fn joined(parts: &[char], more: &[char]) -> (out: Vec<char>)
    ensures
        out@ == parts@ + more@,
{
    let mut out: Vec<char> = Vec::new();
    let mut i: usize = 0;
    while i < parts.len()
        invariant
            i <= parts.len(),
            out@ == parts@.take(i as int),
        decreases parts.len() - i,
    {
        out.push(parts[i]);
        i += 1;
    }
    assert(parts@.take(parts.len() as int) == parts@);
    let mut j: usize = 0;
    while j < more.len()
        invariant
            j <= more.len(),
            out@ == parts@ + more@.take(j as int),
        decreases more.len() - j,
    {
        out.push(more[j]);
        assert(more@.take(j + 1) == more@.take(j as int).push(more@[j as int]));
        j += 1;
    }
    assert(more@.take(more.len() as int) == more@);
    out
}

fn sqlite_path(path: &[char]) -> (out: Vec<char>)
    ensures
        out@ == spec_sqlite_path(path@),
{
    let slashed = replaced(path, '\\', '/');
    let verbatim = chars_of("//?/");
    let slash: Vec<char> = vec!['/'];
    assert(slash@ =~= seq!['/']);
    let plain = if chars_start_with(slashed.as_slice(), verbatim.as_slice()) {
        let tail = slice_chars(slashed.as_slice(), verbatim.len(), slashed.len());
        joined(slash.as_slice(), tail.as_slice())
    } else {
        slashed
    };
    if plain.len() >= 2 && char_is_ascii_alpha(plain[0]) && plain[1] == ':' {
        joined(slash.as_slice(), plain.as_slice())
    } else {
        plain
    }
}

fn normalized_chars(db_url: &[char]) -> (out: Vec<char>)
    requires
        starts_with(db_url@, "sqlite://"@),
    ensures
        out@ == spec_normalize_sqlite_db_url_path(db_url@),
{
    let scheme = chars_of("sqlite://");
    let rest = slice_chars(db_url, scheme.len(), db_url.len());
    let mark = find_char(rest.as_slice(), '?');
    let raw_path = slice_chars(rest.as_slice(), 0, mark);
    let path = sqlite_path(raw_path.as_slice());
    let head = joined(scheme.as_slice(), path.as_slice());
    if mark < rest.len() {
        let question: Vec<char> = vec!['?'];
        assert(question@ =~= seq!['?']);
        let query = slice_chars(rest.as_slice(), mark + 1, rest.len());
        let with_mark = joined(head.as_slice(), question.as_slice());
        joined(with_mark.as_slice(), query.as_slice())
    } else {
        head
    }
}

/// Normalizes the path of a SQLite address; see [`spec_normalize_sqlite_db_url_path`].
pub fn normalize_sqlite_db_url_path(db_url: &str) -> (normalized: String)
    ensures
        normalized@ == spec_normalize_sqlite_db_url_path(db_url@),
{
    let chars = chars_of(db_url);
    if !chars_start_with_str(chars.as_slice(), "sqlite://") {
        return string_of(chars.as_slice());
    }
    let out = normalized_chars(chars.as_slice());
    string_of(out.as_slice())
}

/// The address that the store is opened with; see [`spec_normalized_db_url`].
pub fn normalized_db_url(db_url: &str) -> (normalized: String)
    ensures
        normalized@ == spec_normalized_db_url(db_url@),
{
    let chars = chars_of(db_url);
    if !chars_start_with_str(chars.as_slice(), "sqlite://") {
        return string_of(chars.as_slice());
    }
    let out = normalized_chars(chars.as_slice());
    let mark = find_char(out.as_slice(), '?');
    proof {
        crate::text::lemma_first_index_of(out@, '?');
        if mark < out.len() {
            assert(out@[mark as int] == '?');
        }
    }
    if mark < out.len() {
        string_of(out.as_slice())
    } else {
        let mode = chars_of("?mode=rwc");
        let all = joined(out.as_slice(), mode.as_slice());
        string_of(all.as_slice())
    }
}

} // verus!
