//! Reader settings kept in a JSON file: the saved window size and other string
//! settings, read from and written into the file's text.

use vstd::prelude::*;
use crate::text::{chars_of, views};

verus! {

/// Window width used until a size is saved.
pub const DEFAULT_WIN_WIDTH: i32 = 1500;

/// Window height used until a size is saved.
pub const DEFAULT_WIN_HEIGHT: i32 = 1000;

/// `c` is an ASCII decimal digit.
pub open spec fn is_digit(c: char) -> bool {
    '0' <= c && c <= '9'
}

/// The value of a string of decimal digits.
pub open spec fn digits_value(s: Seq<char>) -> int
    decreases s.len(),
{
    if s.len() == 0 {
        0
    } else {
        digits_value(s.drop_last()) * 10 + (s.last() as int - '0' as int)
    }
}

/// Every character of `s` is a decimal digit.
pub open spec fn all_digits(s: Seq<char>) -> bool {
    forall|i: int| 0 <= i < s.len() ==> is_digit(#[trigger] s[i])
}

/// The digits part of a decimal: after a leading sign, if any.
pub open spec fn digits_part(s: Seq<char>) -> Seq<char> {
    if s.len() > 0 && (s[0] == '-' || s[0] == '+') {
        s.skip(1)
    } else {
        s
    }
}

/// What `str::parse::<i32>` gives: an optional `+` or `-`, then one or more decimal
/// digits whose value (negated after `-`) lies in the `i32` range.
pub open spec fn parse_i32_spec(s: Seq<char>) -> Option<i32> {
    let body = digits_part(s);
    let v = if s.len() > 0 && s[0] == '-' {
        -digits_value(body)
    } else {
        digits_value(body)
    };
    if body.len() > 0 && all_digits(body) && i32::MIN <= v <= i32::MAX {
        Some(v as i32)
    } else {
        None
    }
}

proof fn lemma_digits_value_grows(s: Seq<char>, k: int)
    requires
        0 <= k <= s.len(),
        forall|i: int| 0 <= i < s.len() ==> is_digit(#[trigger] s[i]),
    ensures
        digits_value(s.take(k)) <= digits_value(s),
        0 <= digits_value(s.take(k)),
    decreases s.len() - k,
{
    if k < s.len() {
        assert(s.take(k + 1).drop_last() == s.take(k));
        assert(s.take(k + 1).last() == s[k]);
        assert(is_digit(s[k]));
        lemma_digits_value_grows(s, k + 1);
    } else {
        assert(s.take(k) == s);
        lemma_digits_value_nonneg(s);
    }
}

proof fn lemma_digits_value_nonneg(s: Seq<char>)
    requires
        forall|i: int| 0 <= i < s.len() ==> is_digit(#[trigger] s[i]),
    ensures
        0 <= digits_value(s),
    decreases s.len(),
{
    if s.len() > 0 {
        assert(is_digit(s[s.len() - 1]));
        lemma_digits_value_nonneg(s.drop_last());
    }
}

/// Parses a decimal `i32` as `str::parse::<i32>` does.
pub fn parse_i32(s: &str) -> (r: Option<i32>)
    ensures
        r == parse_i32_spec(s@),
{
    let cs = chars_of(s);
    let n = cs.len();
    let neg = n > 0 && cs[0] == '-';
    let start: usize = if n > 0 && (cs[0] == '-' || cs[0] == '+') {
        1
    } else {
        0
    };
    let ghost body = cs@.skip(start as int);
    assert(body == digits_part(s@));
    if start == n {
        return None;
    }
    let limit: i64 = 2147483648;
    let mut acc: i64 = 0;
    let mut i: usize = start;
    while i < n
        invariant
            n == cs@.len(),
            start <= i <= n,
            limit == 2147483648,
            cs@ == s@,
            body == cs@.skip(start as int),
            body == digits_part(s@),
            neg == (s@.len() > 0 && s@[0] == '-'),
            0 <= acc <= limit,
            forall|j: int| 0 <= j < i - start ==> is_digit(#[trigger] body[j]),
            acc == digits_value(body.take(i - start)),
        decreases n - i,
    {
        let c = cs[i];
        assert(body[i - start] == c);
        if !('0' <= c && c <= '9') {
            assert(!is_digit(body[i - start]));
            assert(!all_digits(body));
            return None;
        }
        let d = (c as u32 - '0' as u32) as i64;
        assert(body.take(i - start + 1).drop_last() == body.take(i - start));
        assert(body.take(i - start + 1).last() == c);
        assert(acc * 10 <= 21474836480) by (nonlinear_arith)
            requires
                0 <= acc <= 2147483648,
        ;
        let next = acc * 10 + d;
        assert(next == digits_value(body.take(i - start + 1)));
        if next > limit {
            proof {
                assert forall|j: int| 0 <= j < i - start + 1 implies is_digit(#[trigger] body[j]) by {
                    if j == i - start {
                        assert(body[j] == c);
                    }
                }
                if all_digits(body) {
                    lemma_digits_value_grows(body, i - start + 1);
                }
            }
            return None;
        }
        acc = next;
        i = i + 1;
    }
    assert(body.take(n - start) == body);
    let v: i64 = if neg { -acc } else { acc };
    if v < -2147483648 || v > 2147483647 {
        return None;
    }
    Some(v as i32)
}

/// The saved window size `[width, height]`: each saved value that parses as an `i32`,
/// the default size otherwise.
pub fn win_size_from_config(width: Option<String>, height: Option<String>) -> (r: Vec<i32>)
    ensures
        r@.len() == 2,
        r@[0] == match width {
            Some(w) => match parse_i32_spec(w@) {
                Some(v) => v,
                None => DEFAULT_WIN_WIDTH,
            },
            None => DEFAULT_WIN_WIDTH,
        },
        r@[1] == match height {
            Some(h) => match parse_i32_spec(h@) {
                Some(v) => v,
                None => DEFAULT_WIN_HEIGHT,
            },
            None => DEFAULT_WIN_HEIGHT,
        },
{
    let w = match width {
        Some(s) => match parse_i32(s.as_str()) {
            Some(v) => v,
            None => DEFAULT_WIN_WIDTH,
        },
        None => DEFAULT_WIN_WIDTH,
    };
    let h = match height {
        Some(s) => match parse_i32(s.as_str()) {
            Some(v) => v,
            None => DEFAULT_WIN_HEIGHT,
        },
        None => DEFAULT_WIN_HEIGHT,
    };
    let r = vec![w, h];
    r
}

} // verus!

verus! {

/// The shape of a settings file's text as JSON.
#[derive(Debug, Clone, Copy, PartialEq, Eq)]
pub enum JsonDocKind {
    /// Not JSON.
    Invalid,
    /// `null`.
    Null,
    /// An object.
    Object,
    /// Any other JSON value.
    Other,
}

/// The shape of a text as JSON.
pub uninterp spec fn json_kind_of(content: Seq<char>) -> JsonDocKind;

/// The string a text, read as JSON, holds under a key.
pub uninterp spec fn json_string_field_of(content: Seq<char>, key: Seq<char>) -> Option<Seq<char>>;

/// `serde_json::from_str::<serde_json::Value>`, then `Value::get(key)`: the shape of the
/// value (not JSON, `null`, an object, or anything else) and the string stored under
/// `key`, if the value is an object holding a string there. Both are functions of the
/// text (and the key) alone; a text that is not a JSON object has no field.
#[verifier::external_body]
fn json_inspect(content: &str, key: &str) -> (r: (JsonDocKind, Option<String>))
    ensures
        r.0 == json_kind_of(content@),
        match r.1 {
            Some(s) => json_string_field_of(content@, key@) == Some(s@),
            None => json_string_field_of(content@, key@) is None,
        },
        r.0 != JsonDocKind::Object ==> r.1 is None,
{
    match serde_json::from_str::<serde_json::Value>(content) {
        Ok(serde_json::Value::Null) => (JsonDocKind::Null, None),
        Ok(serde_json::Value::Object(m)) => match m.get(key) {
            Some(serde_json::Value::String(s)) => (JsonDocKind::Object, Some(s.clone())),
            _ => (JsonDocKind::Object, None),
        },
        Ok(_) => (JsonDocKind::Other, None),
        Err(_) => (JsonDocKind::Invalid, None),
    }
}

/// What `json_with_string_field` returns.
pub uninterp spec fn json_with_string_field_of(content: Seq<char>, key: Seq<char>, value: Seq<char>) -> Seq<
    char,
>;

/// `serde_json::Value::Object(serde_json::Map::new()).to_string()`: the text of an empty
/// JSON object, which parses back as an object with no field.
#[verifier::external_body]
fn json_empty_object() -> (s: String)
    ensures
        json_kind_of(s@) == JsonDocKind::Object,
        forall|k: Seq<char>| #[trigger] json_string_field_of(s@, k) is None,
{
    serde_json::Value::Object(serde_json::Map::new()).to_string()
}

/// `serde_json::from_str::<serde_json::Value>` on a text that is a JSON object or `null`,
/// then `value[key] = value` (`null` becomes an object first; an object gets the key
/// inserted or replaced), then `serde_json::to_string_pretty`. The text written is a
/// function of the arguments alone, and it is an object: serialising a value and parsing
/// the text back gives the same object, so the key now holds the string and every other
/// key holds the string it held before (if any). Parsing succeeds on such a text, and
/// serialising a JSON value, whose map keys are strings, into memory does not fail.
/// Indexing a JSON value that is neither an object nor `null` panics; `requires`
/// excludes it.
#[verifier::external_body]
fn json_with_string_field(content: &str, key: &str, value: &str) -> (r: Result<String, String>)
    requires
        json_kind_of(content@) == JsonDocKind::Object || json_kind_of(content@) == JsonDocKind::Null,
    ensures
        r is Ok,
        r matches Ok(s) ==> s@ == json_with_string_field_of(content@, key@, value@),
        r matches Ok(s) ==> json_kind_of(s@) == JsonDocKind::Object,
        r matches Ok(s) ==> json_string_field_of(s@, key@) == Some(value@),
        r matches Ok(s) ==> forall|k: Seq<char>|
            k != key@ ==> #[trigger] json_string_field_of(s@, k) == json_string_field_of(content@, k),
{
    let mut json: serde_json::Value = match serde_json::from_str(content) {
        Ok(v) => v,
        Err(e) => return Err(e.to_string()),
    };
    json[key] = serde_json::Value::String(value.to_string());
    serde_json::to_string_pretty(&json).map_err(|e| e.to_string())
}

/// The string a setting other than the one written keeps: what the settings text held
/// under `k`, none when there is no text or it is not JSON.
pub open spec fn kept_field(existing: Option<Seq<char>>, k: Seq<char>) -> Option<Seq<char>> {
    match existing {
        Some(c) => if json_kind_of(c) == JsonDocKind::Invalid {
            None
        } else {
            json_string_field_of(c, k)
        },
        None => None,
    }
}

/// The characters of an optional text.
pub open spec fn opt_text(o: Option<&str>) -> Option<Seq<char>> {
    match o {
        Some(c) => Some(c@),
        None => None,
    }
}

/// The string setting stored under `key` in the settings file's text (`None` when there
/// is no file, its text is not a JSON object, or the key holds no string).
pub fn load_config_value(content: Option<&str>, key: &str) -> (r: Option<String>)
    ensures
        match r {
            Some(s) => content matches Some(c) && json_string_field_of(c@, key@) == Some(s@),
            None => content matches Some(c) ==> json_string_field_of(c@, key@) is None,
        },
        content matches Some(c) && json_kind_of(c@) != JsonDocKind::Object ==> r is None,
{
    match content {
        Some(c) => json_inspect(c, key).1,
        None => None,
    }
}

/// The settings file's new text with the string `value` stored under `key` and every
/// other setting kept (starting from an empty object when there is no file or its text
/// is not JSON).
pub fn save_config_value(existing: Option<&str>, key: &str, value: &str) -> (r: Result<String, String>)
    requires
        existing matches Some(c) ==> json_kind_of(c@) != JsonDocKind::Other,
    ensures
        r is Ok,
        r matches Ok(s) ==> json_kind_of(s@) == JsonDocKind::Object,
        r matches Ok(s) ==> json_string_field_of(s@, key@) == Some(value@),
        r matches Ok(s) ==> forall|k: Seq<char>|
            k != key@ ==> #[trigger] json_string_field_of(s@, k) == kept_field(opt_text(existing), k),
        r matches Ok(s) ==> (existing matches Some(c) ==> (json_kind_of(c@) != JsonDocKind::Invalid ==> s@
            == json_with_string_field_of(c@, key@, value@))),
{
    match existing {
        Some(c) => {
            let (kind, _) = json_inspect(c, key);
            match kind {
                JsonDocKind::Invalid => {
                    let empty = json_empty_object();
                    json_with_string_field(empty.as_str(), key, value)
                },
                _ => json_with_string_field(c, key, value),
            }
        },
        None => {
            let empty = json_empty_object();
            json_with_string_field(empty.as_str(), key, value)
        },
    }
}

/// `save_config_value` where the settings text allows it; `None` when the text is a
/// JSON value that is neither an object nor `null`, which cannot take a setting.
pub fn try_save_config_value(existing: Option<&str>, key: &str, value: &str) -> (r: Option<
    Result<String, String>,
>)
    ensures
        r is None <==> (existing matches Some(c) && json_kind_of(c@) == JsonDocKind::Other),
        r matches Some(res) ==> res is Ok,
        r matches Some(Ok(s)) ==> json_string_field_of(s@, key@) == Some(value@),
        r matches Some(Ok(s)) ==> forall|k: Seq<char>|
            k != key@ ==> #[trigger] json_string_field_of(s@, k) == kept_field(opt_text(existing), k),
        r matches Some(Ok(s)) ==> (existing matches Some(c) ==> (json_kind_of(c@) != JsonDocKind::Invalid
            ==> s@ == json_with_string_field_of(c@, key@, value@))),
{
    match existing {
        Some(c) => {
            match json_inspect(c, key).0 {
                JsonDocKind::Other => return None,
                _ => {},
            }
        },
        None => {},
    }
    Some(save_config_value(existing, key, value))
}

} // verus!
