//! Project slugs, the display keys of tasks, and references to tasks.

use crate::error::{AppError, AppErrorView, AppResult};
use crate::text::{
    ascii_lower, ascii_upper, char_is_ascii_digit, char_is_ascii_upper, chars_contain_str, chars_eq,
    chars_of, contains_seq, decimal, find_char, first_index_of, is_ascii_digit, is_ascii_upper,
    lemma_decimal_shape, lemma_first_index_of, owned, parse_positive, push_signed_decimal,
    signed_decimal, slice_chars, spec_parse_positive, string_of, to_ascii_lower, to_ascii_upper,
    trim, trimmed, without_plus,
};
use vstd::prelude::*;
use vstd::string::StringExecFns;

verus! {

/// The hyphenated lower-case form of the UUID that `value` writes, where it writes
/// one in any of the forms that the `uuid` crate reads.
pub uninterp spec fn hyphenated_uuid(value: Seq<char>) -> Option<Seq<char>>;

/// `uuid::Uuid::parse_str`, and the `hyphenated` form of what it read, which is 36
/// characters long.
#[verifier::external_body]
fn uuid_hyphenated_form(value: &str) -> (form: Option<String>)
    ensures
        match form {
            Some(text) => hyphenated_uuid(value@) == Some(text@) && text@.len() == 36,
            None => hyphenated_uuid(value@) is None,
        },
{
    match uuid::Uuid::parse_str(value) {
        Ok(parsed) => Some(parsed.hyphenated().to_string()),
        Err(_) => None,
    }
}

/// How a task is referred to: by its id, or by the slug of its project and its
/// number in it.
#[derive(Debug, Clone)]
pub enum TaskRef {
    Uuid(String),
    DisplayKey { slug: String, task_number: i64 },
}

pub enum TaskRefView {
    Uuid(Seq<char>),
    DisplayKey { slug: Seq<char>, task_number: i64 },
}

impl View for TaskRef {
    type V = TaskRefView;

    open spec fn view(&self) -> TaskRefView {
        match self {
            TaskRef::Uuid(id) => TaskRefView::Uuid(id@),
            TaskRef::DisplayKey { slug, task_number } => TaskRefView::DisplayKey {
                slug: slug@,
                task_number: *task_number,
            },
        }
    }
}

/// `value` is a UUID in hyphenated form, in either case.
pub open spec fn spec_is_canonical_uuid(value: Seq<char>) -> bool {
    match hyphenated_uuid(value) {
        Some(canonical) => ascii_lower(value) == ascii_lower(canonical),
        None => false,
    }
}

/// Whether `value` is a UUID in hyphenated form, which is 36 characters long; see
/// [`spec_is_canonical_uuid`].
pub fn is_canonical_uuid(value: &str) -> (canonical: bool)
    ensures
        canonical == spec_is_canonical_uuid(value@),
        canonical ==> value@.len() == 36,
{
    match uuid_hyphenated_form(value) {
        Some(form) => {
            let given = chars_of(value);
            let wanted = chars_of(form.as_str());
            let left = to_ascii_lower(given.as_slice());
            let right = to_ascii_lower(wanted.as_slice());
            assert(left@.len() == value@.len() && right@.len() == 36);
            chars_eq(left.as_slice(), right.as_slice())
        },
        None => false,
    }
}

/// Every character is an upper-case ASCII letter or an ASCII digit.
pub open spec fn all_upper_or_digit(s: Seq<char>) -> bool {
    forall|i: int| 0 <= i < s.len() ==> is_ascii_upper(#[trigger] s[i]) || is_ascii_digit(s[i])
}

/// Every character is an upper-case ASCII letter, an ASCII digit or a hyphen.
pub open spec fn all_slug_chars(s: Seq<char>) -> bool {
    forall|i: int|
        0 <= i < s.len() ==> is_ascii_upper(#[trigger] s[i]) || is_ascii_digit(s[i]) || s[i]
            == '-'
}

fn chars_all_upper_or_digit(chars: &[char], hyphen_too: bool) -> (all: bool)
    ensures
        all == if hyphen_too {
            all_slug_chars(chars@)
        } else {
            all_upper_or_digit(chars@)
        },
{
    let mut i: usize = 0;
    while i < chars.len()
        invariant
            i <= chars.len(),
            forall|k: int|
                0 <= k < i ==> is_ascii_upper(#[trigger] chars@[k]) || is_ascii_digit(chars@[k])
                    || (hyphen_too && chars@[k] == '-'),
        decreases chars.len() - i,
    {
        let c = chars[i];
        if !(char_is_ascii_upper(c) || char_is_ascii_digit(c) || (hyphen_too && c == '-')) {
            return false;
        }
        i += 1;
    }
    true
}

/// A display key is a slug of upper-case letters and digits, a hyphen, and the
/// task's number, which is positive and does not begin with a zero.
pub open spec fn spec_parse_display_key(value: Seq<char>) -> Option<(Seq<char>, i64)> {
    let dash = first_index_of(value, '-');
    if dash >= value.len() {
        None
    } else {
        let slug = value.subrange(0, dash);
        let number = value.subrange(dash + 1, value.len() as int);
        if slug.len() == 0 || !all_upper_or_digit(slug) {
            None
        } else if number.len() > 0 && number[0] == '0' {
            None
        } else {
            match spec_parse_positive(number) {
                Some(n) => Some((slug, n as i64)),
                None => None,
            }
        }
    }
}

/// Reads a display key as slug and number; see [`spec_parse_display_key`].
pub fn parse_display_key(value: &str) -> (parsed: Option<(String, i64)>)
    ensures
        match parsed {
            Some((slug, number)) => spec_parse_display_key(value@) == Some((slug@, number)),
            None => spec_parse_display_key(value@) is None,
        },
{
    let chars = chars_of(value);
    let dash = find_char(chars.as_slice(), '-');
    if dash >= chars.len() {
        return None;
    }
    let slug = slice_chars(chars.as_slice(), 0, dash);
    let number = slice_chars(chars.as_slice(), dash + 1, chars.len());
    if slug.len() == 0 || !chars_all_upper_or_digit(slug.as_slice(), false) {
        return None;
    }
    if number.len() > 0 && number[0] == '0' {
        return None;
    }
    match parse_positive(number.as_slice()) {
        Some(n) => Some((string_of(slug.as_slice()), n)),
        None => None,
    }
}

/// The words that a reference to a task is refused with.
pub open spec fn invalid_task_ref_message(value: Seq<char>) -> Seq<char> {
    "invalid task reference '"@ + value + "', expected UUID or DISPLAY_KEY"@
}

/// A reference to a task: a hyphenated UUID is taken as the task's id, else a
/// display key as slug and number; anything else is a bad request.
pub open spec fn spec_parse_task_ref(value: Seq<char>) -> Result<TaskRefView, AppErrorView> {
    if spec_is_canonical_uuid(value) {
        Ok(TaskRefView::Uuid(value))
    } else {
        match spec_parse_display_key(value) {
            Some((slug, task_number)) => Ok(TaskRefView::DisplayKey { slug, task_number }),
            None => Err(AppErrorView::BadRequest(invalid_task_ref_message(value))),
        }
    }
}

/// Reads a reference to a task; see [`spec_parse_task_ref`].
pub fn parse_task_ref(value: &str) -> (parsed: AppResult<TaskRef>)
    ensures
        match parsed {
            Ok(task_ref) => spec_parse_task_ref(value@) == Ok::<TaskRefView, AppErrorView>(
                task_ref@,
            ),
            Err(error) => spec_parse_task_ref(value@) == Err::<TaskRefView, AppErrorView>(error@),
        },
        parsed matches Ok(TaskRef::Uuid(id)) ==> id@ == value@ && value@.len() == 36,
{
    if is_canonical_uuid(value) {
        return Ok(TaskRef::Uuid(owned(value)));
    }
    if let Some((slug, task_number)) = parse_display_key(value) {
        return Ok(TaskRef::DisplayKey { slug, task_number });
    }
    let mut message = String::from_str("invalid task reference '");
    message.append(value);
    message.append("', expected UUID or DISPLAY_KEY");
    Err(AppError::BadRequest(message))
}

/// The display key of a task: the slug of its project, a hyphen, and its number.
pub open spec fn spec_display_key(slug: Seq<char>, task_number: i64) -> Seq<char> {
    slug + "-"@ + signed_decimal(task_number as int)
}

/// A display key reads back as what it was made of: the key of a task with a
/// positive number, in a project whose slug is made of upper-case letters and
/// digits, is read as that slug and that number.
pub proof fn lemma_display_key_round_trip(slug: Seq<char>, task_number: i64)
    requires
        slug.len() > 0,
        all_upper_or_digit(slug),
        task_number > 0,
    ensures
        spec_parse_display_key(spec_display_key(slug, task_number)) == Some((slug, task_number)),
{
    reveal_strlit("-");
    let number = decimal(task_number as nat);
    let key = spec_display_key(slug, task_number);
    lemma_decimal_shape(task_number as nat);
    assert(key =~= slug + seq!['-'] + number);
    assert(key[slug.len() as int] == '-');
    lemma_first_index_of(key, '-');
    let dash = first_index_of(key, '-');
    if dash < slug.len() {
        assert(key[dash] == slug[dash]);
        assert(is_ascii_upper(slug[dash]) || is_ascii_digit(slug[dash]));
    }
    assert(dash == slug.len());
    assert(key.subrange(0, dash) =~= slug);
    assert(key.subrange(dash + 1, key.len() as int) =~= number);
    assert(is_ascii_digit(number[0]));
    assert(without_plus(number) == number);
}

/// The display key of the task `task_number` of the project `slug`.
pub fn display_key(slug: &str, task_number: i64) -> (key: String)
    ensures
        key@ == spec_display_key(slug@, task_number),
{
    let mut key = String::from_str(slug);
    key.append("-");
    push_signed_decimal(&mut key, task_number);
    key
}

/// A slug is read with the whitespace round it dropped and its letters in upper
/// case. It may not be empty, begin or end with a hyphen, hold two hyphens in a
/// row, or hold anything but upper-case letters, digits and hyphens.
pub open spec fn spec_normalize_slug(slug: Seq<char>) -> Result<Seq<char>, AppErrorView> {
    let candidate = ascii_upper(trim(slug));
    if candidate.len() == 0 {
        Err(AppErrorView::BadRequest("project slug cannot be empty"@))
    } else if candidate[0] == '-' || candidate.last() == '-' || contains_seq(candidate, "--"@) {
        Err(
            AppErrorView::BadRequest(
                "project slug must not start/end with '-' or contain consecutive '-'"@,
            ),
        )
    } else if !all_slug_chars(candidate) {
        Err(
            AppErrorView::BadRequest(
                "project slug may only include uppercase letters, digits, and '-'"@,
            ),
        )
    } else {
        Ok(candidate)
    }
}

/// Reads a slug; see [`spec_normalize_slug`].
pub fn normalize_slug(slug: &str) -> (normalized: AppResult<String>)
    ensures
        match normalized {
            Ok(candidate) => spec_normalize_slug(slug@) == Ok::<Seq<char>, AppErrorView>(
                candidate@,
            ),
            Err(error) => spec_normalize_slug(slug@) == Err::<Seq<char>, AppErrorView>(error@),
        },
{
    let chars = chars_of(slug);
    let kept = trimmed(chars.as_slice());
    let candidate = to_ascii_upper(kept.as_slice());
    if candidate.len() == 0 {
        return Err(AppError::BadRequest(owned("project slug cannot be empty")));
    }
    if candidate[0] == '-' || candidate[candidate.len() - 1] == '-' || chars_contain_str(
        candidate.as_slice(),
        "--",
    ) {
        return Err(
            AppError::BadRequest(
                owned("project slug must not start/end with '-' or contain consecutive '-'"),
            ),
        );
    }
    if !chars_all_upper_or_digit(candidate.as_slice(), true) {
        return Err(
            AppError::BadRequest(
                owned("project slug may only include uppercase letters, digits, and '-'"),
            ),
        );
    }
    Ok(string_of(candidate.as_slice()))
}

} // verus!
