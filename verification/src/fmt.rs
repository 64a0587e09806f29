use vstd::prelude::*;
use vstd::string::StrSliceExecFns;
use vstd::string::StringExecFns;
use crate::time::LocalTime;

verus! {

/// The decimal digit character for `d` in 0..=9.
pub open spec fn digit(d: int) -> char {
    ((48 + d) as u8) as char
}

pub open spec fn two_digits(n: int) -> Seq<char> {
    seq![digit(n / 10), digit(n % 10)]
}

pub open spec fn four_digits(n: int) -> Seq<char> {
    seq![digit(n / 1000), digit(n / 100 % 10), digit(n / 10 % 10), digit(n % 10)]
}

/// The `YYYY-MM-DD` rendering of `t`'s date.
pub open spec fn date_key_spec(t: LocalTime) -> Seq<char> {
    four_digits(t.year as int) + seq!['-'] + two_digits(t.month as int) + seq!['-'] + two_digits(
        t.day as int,
    )
}

/// The `HH.MM` rendering of `t`'s time of day; seconds are discarded.
pub open spec fn time_key_spec(t: LocalTime) -> Seq<char> {
    two_digits(t.hour as int) + seq!['.'] + two_digits(t.minute as int)
}

/// ASCII lower-casing of a single character: `A`..=`Z` map to `a`..=`z`,
/// everything else is unchanged.
pub open spec fn lower_char(c: char) -> char {
    if 65 <= c as int <= 90 {
        ((c as int + 32) as u8) as char
    } else {
        c
    }
}

pub open spec fn lower_seq(s: Seq<char>) -> Seq<char> {
    s.map(|i: int, c: char| lower_char(c))
}

/// `dir/date/name`, the planned location of one recording file.
pub open spec fn joined3(dir: Seq<char>, date: Seq<char>, name: Seq<char>) -> Seq<char> {
    dir + seq!['/'] + date + seq!['/'] + name
}

/// Relies on `String::push`: appends exactly the one given character.
#[verifier::external_body]
pub(crate) fn push_char(s: &mut String, c: char)
    ensures
        final(s)@ == old(s)@.push(c),
{
    s.push(c);
}

fn digit_char(d: u8) -> (c: char)
    requires
        d < 10,
    ensures
        c == digit(d as int),
{
    (48 + d) as char
}

fn push_two_digits(s: &mut String, n: u8)
    requires
        n < 100,
    ensures
        final(s)@ == old(s)@ + two_digits(n as int),
{
    push_char(s, digit_char(n / 10));
    push_char(s, digit_char(n % 10));
    proof {
        assert(s@ =~= old(s)@ + two_digits(n as int));
    }
}

fn push_four_digits(s: &mut String, n: i32)
    requires
        0 <= n <= 9999,
    ensures
        final(s)@ == old(s)@ + four_digits(n as int),
{
    push_char(s, digit_char((n / 1000) as u8));
    push_char(s, digit_char((n / 100 % 10) as u8));
    push_char(s, digit_char((n / 10 % 10) as u8));
    push_char(s, digit_char((n % 10) as u8));
    proof {
        assert(s@ =~= old(s)@ + four_digits(n as int));
    }
}

/// The `YYYY-MM-DD` date component of every planned path.
pub fn date_key(t: &LocalTime) -> (r: String)
    requires
        0 <= t.year <= 9999,
        t.month < 100,
        t.day < 100,
    ensures
        r@ == date_key_spec(*t),
{
    let mut s = String::new();
    push_four_digits(&mut s, t.year);
    push_char(&mut s, '-');
    push_two_digits(&mut s, t.month);
    push_char(&mut s, '-');
    push_two_digits(&mut s, t.day);
    proof {
        assert(s@ =~= date_key_spec(*t));
    }
    s
}

/// The `HH.MM` time component of every planned file name.
pub fn time_key(t: &LocalTime) -> (r: String)
    requires
        t.hour < 100,
        t.minute < 100,
    ensures
        r@ == time_key_spec(*t),
{
    let mut s = String::new();
    push_two_digits(&mut s, t.hour);
    push_char(&mut s, '.');
    push_two_digits(&mut s, t.minute);
    proof {
        assert(s@ =~= time_key_spec(*t));
    }
    s
}

/// ASCII lower-casing of a whole string, character by character.
pub fn to_ascii_lower(s: &str) -> (r: String)
    ensures
        r@ == lower_seq(s@),
{
    let len = s.unicode_len();
    let mut out = String::new();
    let mut i: usize = 0;
    while i < len
        invariant
            i <= len,
            len == s@.len(),
            out@ == lower_seq(s@.take(i as int)),
        decreases len - i,
    {
        let c = s.get_char(i);
        let u = c as u32;
        let lc: char = if 65 <= u && u <= 90 {
            ((u + 32) as u8) as char
        } else {
            c
        };
        push_char(&mut out, lc);
        proof {
            assert(out@ =~= lower_seq(s@.take(i + 1)));
        }
        i = i + 1;
    }
    proof {
        assert(s@.take(len as int) =~= s@);
    }
    out
}

/// The full planned path `output_dir/date/name`.
pub fn target_path(output_dir: &str, date: &str, name: &str) -> (r: String)
    ensures
        r@ == joined3(output_dir@, date@, name@),
{
    let mut s = String::from_str(output_dir);
    push_char(&mut s, '/');
    s.append(date);
    push_char(&mut s, '/');
    s.append(name);
    proof {
        assert(s@ =~= joined3(output_dir@, date@, name@));
    }
    s
}

} // verus!
