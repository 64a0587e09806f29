use vstd::prelude::*;

verus! {

/// A string member as extraction reports it: absent, present but not a
/// string, or its text.
#[derive(Debug)]
pub enum RawStr {
    Absent,
    NotAString,
    Val(String),
}

/// An integer member as extraction reports it.
#[derive(Debug)]
pub enum RawInt {
    Absent,
    NotAnInt,
    Val(i64),
}

/// Whether `s` is well-formed JSON text, as serde_json's parser decides it;
/// a function of the text alone.
pub uninterp spec fn json_parses(s: Seq<char>) -> bool;

/// The string member of `s`'s root object under `key`: `Absent` when the
/// root is no object or has no such member, `NotAString` when the member is
/// no string. Meaningful only when `s` parses.
pub uninterp spec fn json_str_member(s: Seq<char>, key: Seq<char>) -> RawStr;

/// The integer member of `s`'s root object under `key`, reported like
/// `json_str_member`; a number that does not fit an `i64` is `NotAnInt`.
pub uninterp spec fn json_int_member(s: Seq<char>, key: Seq<char>) -> RawInt;

/// The length of the `meetings` array of `s`'s root object, or `None` when
/// there is no such member or it is no array.
pub uninterp spec fn json_meetings_len(s: Seq<char>) -> Option<int>;

/// The string member `key` of the `i`-th element of `s`'s `meetings` array.
pub uninterp spec fn json_meeting_str(s: Seq<char>, i: int, key: Seq<char>) -> RawStr;

/// The length of the `recording_files` array of the `i`-th meeting, or
/// `None` when that meeting has no such array.
pub uninterp spec fn json_files_len(s: Seq<char>, i: int) -> Option<int>;

/// The string member `key` of the `j`-th recording file of the `i`-th
/// meeting.
pub uninterp spec fn json_file_str(s: Seq<char>, i: int, j: int, key: Seq<char>) -> RawStr;

/// Relies on `serde_json::from_str::<Value>`: it succeeds exactly on
/// well-formed JSON text.
#[verifier::external_body]
pub(crate) fn json_wellformed(s: &str) -> (r: bool)
    ensures
        r == json_parses(s@),
{
    serde_json::from_str::<serde_json::Value>(s).is_ok()
}

/// Relies on `serde_json::from_str::<Value>`, `Value::get` and
/// `Value::as_str`: parse the text and read one string member of the root
/// object.
#[verifier::external_body]
pub(crate) fn root_str_member(s: &str, key: &str) -> (r: RawStr)
    requires
        json_parses(s@),
    ensures
        r == json_str_member(s@, key@),
{
    let v: serde_json::Value = serde_json::from_str(s).unwrap();
    match v.get(key) {
        None => RawStr::Absent,
        Some(x) => match x.as_str() {
            None => RawStr::NotAString,
            Some(t) => RawStr::Val(t.to_string()),
        },
    }
}

/// Relies on `serde_json::from_str::<Value>`, `Value::get` and
/// `Value::as_i64`: parse the text and read one integer member of the root
/// object.
#[verifier::external_body]
pub(crate) fn root_int_member(s: &str, key: &str) -> (r: RawInt)
    requires
        json_parses(s@),
    ensures
        r == json_int_member(s@, key@),
{
    let v: serde_json::Value = serde_json::from_str(s).unwrap();
    match v.get(key) {
        None => RawInt::Absent,
        Some(x) => match x.as_i64() {
            None => RawInt::NotAnInt,
            Some(d) => RawInt::Val(d),
        },
    }
}

/// Relies on `serde_json::from_str::<Value>`, `Value::get` and
/// `Value::as_array`: parse the text and count the `meetings` array.
#[verifier::external_body]
pub(crate) fn meetings_len(s: &str) -> (r: Option<usize>)
    requires
        json_parses(s@),
    ensures
        r matches Some(n) ==> json_meetings_len(s@) == Some(n as int),
        r is None ==> json_meetings_len(s@) is None,
{
    let v: serde_json::Value = serde_json::from_str(s).unwrap();
    match v.get("meetings").and_then(|m| m.as_array()) {
        Some(a) => Some(a.len()),
        None => None,
    }
}

/// Relies on `serde_json::from_str::<Value>`, `Value::get` and
/// `Value::as_str`: parse the text and read one string member of the `i`-th
/// meeting.
#[verifier::external_body]
pub(crate) fn meeting_str_member(s: &str, i: usize, key: &str) -> (r: RawStr)
    requires
        json_parses(s@),
    ensures
        r == json_meeting_str(s@, i as int, key@),
{
    let v: serde_json::Value = serde_json::from_str(s).unwrap();
    let x = v.get("meetings").and_then(|m| m.get(i)).and_then(|m| m.get(key));
    match x {
        None => RawStr::Absent,
        Some(x) => match x.as_str() {
            None => RawStr::NotAString,
            Some(t) => RawStr::Val(t.to_string()),
        },
    }
}

/// Relies on `serde_json::from_str::<Value>`, `Value::get` and
/// `Value::as_array`: parse the text and count the `i`-th meeting's
/// `recording_files` array.
#[verifier::external_body]
pub(crate) fn files_len(s: &str, i: usize) -> (r: Option<usize>)
    requires
        json_parses(s@),
    ensures
        r matches Some(n) ==> json_files_len(s@, i as int) == Some(n as int),
        r is None ==> json_files_len(s@, i as int) is None,
{
    let v: serde_json::Value = serde_json::from_str(s).unwrap();
    let a = v.get("meetings").and_then(|m| m.get(i)).and_then(|m| m.get("recording_files"));
    match a.and_then(|f| f.as_array()) {
        Some(a) => Some(a.len()),
        None => None,
    }
}

/// Relies on `serde_json::from_str::<Value>`, `Value::get` and
/// `Value::as_str`: parse the text and read one string member of the `j`-th
/// recording file of the `i`-th meeting.
#[verifier::external_body]
pub(crate) fn file_str_member(s: &str, i: usize, j: usize, key: &str) -> (r: RawStr)
    requires
        json_parses(s@),
    ensures
        r == json_file_str(s@, i as int, j as int, key@),
{
    let v: serde_json::Value = serde_json::from_str(s).unwrap();
    let x = v.get("meetings").and_then(|m| m.get(i)).and_then(|m| m.get("recording_files"));
    let x = x.and_then(|f| f.get(j)).and_then(|f| f.get(key));
    match x {
        None => RawStr::Absent,
        Some(w) => match w.as_str() {
            None => RawStr::NotAString,
            Some(t) => RawStr::Val(t.to_string()),
        },
    }
}

} // verus!
