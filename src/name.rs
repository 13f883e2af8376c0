use vstd::prelude::*;
use vstd::string::StrSliceExecFns;
use crate::constants::{TABLE_NAME_MAX_LEN, TABLE_NAME_MIN_LEN};
use crate::errors::TwentyOneError;

verus! {

/// A character with the Unicode White_Space property.
pub open spec fn is_white_space(c: char) -> bool {
    ('\u{9}' <= c && c <= '\u{d}') || c == ' ' || c == '\u{85}' || c == '\u{a0}' || c == '\u{1680}'
        || ('\u{2000}' <= c && c <= '\u{200a}') || c == '\u{2028}' || c == '\u{2029}' || c
        == '\u{202f}' || c == '\u{205f}' || c == '\u{3000}'
}

/// The text without its leading white space.
pub open spec fn trim_start_of(s: Seq<char>) -> Seq<char>
    decreases s.len(),
{
    if s.len() > 0 && is_white_space(s[0]) {
        trim_start_of(s.drop_first())
    } else {
        s
    }
}

/// The text without its trailing white space.
pub open spec fn trim_end_of(s: Seq<char>) -> Seq<char>
    decreases s.len(),
{
    if s.len() > 0 && is_white_space(s.last()) {
        trim_end_of(s.drop_last())
    } else {
        s
    }
}

/// The text with leading and trailing white space removed.
pub open spec fn trim_of(s: Seq<char>) -> Seq<char> {
    trim_end_of(trim_start_of(s))
}

/// The text in lower case.
pub uninterp spec fn lower_of(s: Seq<char>) -> Seq<char>;

/// Relies on `str::trim`: the text without leading and trailing characters
/// of the Unicode White_Space property.
#[verifier::external_body]
fn trim_str(s: &str) -> (r: &str)
    ensures
        r@ == trim_of(s@),
{
    s.trim()
}

/// Relies on `str::to_lowercase`: the text in lower case.
#[verifier::external_body]
fn lowercase(s: &str) -> (r: String)
    ensures
        r@ == lower_of(s@),
{
    s.to_lowercase()
}

/// A character allowed in a table name: a lowercase ASCII letter, an ASCII
/// digit or a hyphen.
pub open spec fn name_char_ok(c: char) -> bool {
    ('a' <= c && c <= 'z') || ('0' <= c && c <= '9') || c == '-'
}

pub open spec fn has_bad_char(n: Seq<char>) -> bool {
    exists|i: int| 0 <= i < n.len() && !name_char_ok(#[trigger] n[i])
}

pub open spec fn hyphen_at_edge(n: Seq<char>) -> bool {
    n.len() > 0 && (n[0] == '-' || n[n.len() - 1] == '-')
}

pub open spec fn has_double_hyphen(n: Seq<char>) -> bool {
    exists|i: int| 0 <= i < n.len() - 1 && #[trigger] n[i] == '-' && n[i + 1] == '-'
}

/// Canonical form of a table name: trimmed, between the length bounds in
/// characters, lowercased; then only letters, digits and single internal
/// hyphens. Each failure has its error, checked in this order.
pub open spec fn spec_normalize_table_name(name: Seq<char>) -> Result<Seq<char>, TwentyOneError> {
    let t = trim_of(name);
    if t.len() < TABLE_NAME_MIN_LEN || t.len() > TABLE_NAME_MAX_LEN {
        Err(TwentyOneError::TableNameLengthInvalid)
    } else {
        let n = lower_of(t);
        if has_bad_char(n) {
            Err(TwentyOneError::TableNameInvalidChars)
        } else if hyphen_at_edge(n) {
            Err(TwentyOneError::TableNameInvalidHyphenPlacement)
        } else if has_double_hyphen(n) {
            Err(TwentyOneError::TableNameConsecutiveHyphens)
        } else {
            Ok(n)
        }
    }
}

/// Checks the characters of an already lowercased name, in the order of
/// `spec_normalize_table_name`.
pub fn check_normalized_name(n: &str) -> (r: Result<(), TwentyOneError>)
    ensures
        r == (if has_bad_char(n@) {
            Err(TwentyOneError::TableNameInvalidChars)
        } else if hyphen_at_edge(n@) {
            Err(TwentyOneError::TableNameInvalidHyphenPlacement)
        } else if has_double_hyphen(n@) {
            Err(TwentyOneError::TableNameConsecutiveHyphens)
        } else {
            Ok(())
        }),
{
    let len = n.unicode_len();
    let mut i: usize = 0;
    while i < len
        invariant
            len == n@.len(),
            i <= len,
            forall|j: int| 0 <= j < i ==> name_char_ok(#[trigger] n@[j]),
        decreases len - i,
    {
        let c = n.get_char(i);
        if !(('a' <= c && c <= 'z') || ('0' <= c && c <= '9') || c == '-') {
            return Err(TwentyOneError::TableNameInvalidChars);
        }
        i = i + 1;
    }
    if len > 0 && (n.get_char(0) == '-' || n.get_char(len - 1) == '-') {
        return Err(TwentyOneError::TableNameInvalidHyphenPlacement);
    }
    let mut k: usize = 0;
    while k < len && k + 1 < len
        invariant
            len == n@.len(),
            k <= len,
            !has_bad_char(n@),
            !hyphen_at_edge(n@),
            forall|j: int| 0 <= j < k && j < len - 1 ==> !(#[trigger] n@[j] == '-' && n@[j + 1] == '-'),
        decreases len - k,
    {
        if n.get_char(k) == '-' && n.get_char(k + 1) == '-' {
            return Err(TwentyOneError::TableNameConsecutiveHyphens);
        }
        k = k + 1;
    }
    Ok(())
}

/// Normalizes a table name and checks it, returning the canonical form.
pub fn normalize_and_validate_table_name(name: &str) -> (r: Result<String, TwentyOneError>)
    ensures
        match r {
            Ok(s) => spec_normalize_table_name(name@) == Ok::<Seq<char>, TwentyOneError>(s@),
            Err(e) => spec_normalize_table_name(name@) == Err::<Seq<char>, TwentyOneError>(e),
        },
{
    let trimmed = trim_str(name);
    let len = trimmed.unicode_len();
    if len < TABLE_NAME_MIN_LEN || len > TABLE_NAME_MAX_LEN {
        return Err(TwentyOneError::TableNameLengthInvalid);
    }
    let normalized = lowercase(trimmed);
    match check_normalized_name(normalized.as_str()) {
        Ok(()) => Ok(normalized),
        Err(e) => Err(e),
    }
}

} // verus!
