//! Texts for the popovers.

use crate::text::{
    chars_of, join_seq, join_splits_back, joined_lacks, same, split, split_seq, string_of,
};
use vstd::prelude::*;

verus! {

broadcast use vstd::string::group_string_axioms;

/// The English short name of a month from its two digits; any other text stands
/// for itself.
pub open spec fn month_name(month: Seq<char>) -> Seq<char> {
    if month == "01"@ {
        "Jan"@
    } else if month == "02"@ {
        "Feb"@
    } else if month == "03"@ {
        "Mar"@
    } else if month == "04"@ {
        "Apr"@
    } else if month == "05"@ {
        "May"@
    } else if month == "06"@ {
        "Jun"@
    } else if month == "07"@ {
        "Jul"@
    } else if month == "08"@ {
        "Aug"@
    } else if month == "09"@ {
        "Sep"@
    } else if month == "10"@ {
        "Oct"@
    } else if month == "11"@ {
        "Nov"@
    } else if month == "12"@ {
        "Dec"@
    } else {
        month
    }
}

fn month_label(month: &str) -> (r: String)
    ensures
        r@ == month_name(month@),
{
    if same(month, "01") {
        "Jan".to_owned()
    } else if same(month, "02") {
        "Feb".to_owned()
    } else if same(month, "03") {
        "Mar".to_owned()
    } else if same(month, "04") {
        "Apr".to_owned()
    } else if same(month, "05") {
        "May".to_owned()
    } else if same(month, "06") {
        "Jun".to_owned()
    } else if same(month, "07") {
        "Jul".to_owned()
    } else if same(month, "08") {
        "Aug".to_owned()
    } else if same(month, "09") {
        "Sep".to_owned()
    } else if same(month, "10") {
        "Oct".to_owned()
    } else if same(month, "11") {
        "Nov".to_owned()
    } else if same(month, "12") {
        "Dec".to_owned()
    } else {
        month.to_owned()
    }
}

/// `s` without the letters Z at its end.
pub open spec fn without_trailing_z(s: Seq<char>) -> Seq<char>
    decreases s.len(),
{
    if s.len() > 0 && s.last() == 'Z' {
        without_trailing_z(s.drop_last())
    } else {
        s
    }
}

fn strip_trailing_z(text: &str) -> (r: String)
    ensures
        r@ == without_trailing_z(text@),
{
    let chars: Vec<char> = chars_of(text);
    let mut n: usize = chars.len();
    assert(chars@.take(n as int) == chars@);
    while n > 0 && chars[n - 1] == 'Z'
        invariant
            n <= chars@.len(),
            without_trailing_z(chars@.take(n as int)) == without_trailing_z(text@),
        ensures
            n <= chars@.len(),
            chars@.take(n as int) == without_trailing_z(text@),
        decreases n,
    {
        assert(chars@.take(n as int).drop_last() == chars@.take(n - 1));
        n = n - 1;
    }
    assert(chars@.subrange(0, n as int) == chars@.take(n as int));
    string_of(&chars, 0, n)
}

/// A time of day in parts: what stands before a fraction, cut at the colons.
pub open spec fn clock_parts(time: Seq<char>) -> Seq<Seq<char>> {
    split_seq(without_trailing_z(split_seq(time, "."@)[0]), ":"@)
}

/// `2026-03-05T14:07:09.123Z` as `Mar 05, 2026 - 14:07 UTC`; a text of another
/// form stands for itself.
pub open spec fn api_timestamp(ts: Seq<char>) -> Seq<char> {
    let halves = split_seq(ts, "T"@);
    let date = split_seq(halves[0], "-"@);
    let clock = clock_parts(halves[1]);
    if halves.len() != 2 || date.len() != 3 || clock.len() < 2 {
        ts
    } else {
        month_name(date[1]) + " "@ + date[2] + ", "@ + date[0] + " - "@ + clock[0] + ":"@ + clock[1]
            + " UTC"@
    }
}

/// Puts a timestamp of an API into words.
pub fn format_api_timestamp(ts: &str) -> (r: String)
    ensures
        r@ == api_timestamp(ts@),
{
    proof {
        reveal_strlit("T");
        reveal_strlit("-");
        reveal_strlit(".");
        reveal_strlit(":");
    }
    let halves: Vec<String> = split(ts, "T");
    if halves.len() != 2 {
        return ts.to_owned();
    }
    assert(halves.deep_view()[0] == halves@[0]@);
    assert(halves.deep_view()[1] == halves@[1]@);
    let date: Vec<String> = split(halves[0].as_str(), "-");
    if date.len() != 3 {
        return ts.to_owned();
    }
    let whole: Vec<String> = split(halves[1].as_str(), ".");
    assert(whole.deep_view()[0] == whole@[0]@);
    let time: String = strip_trailing_z(whole[0].as_str());
    let clock: Vec<String> = split(time.as_str(), ":");
    if clock.len() < 2 {
        return ts.to_owned();
    }
    let mut r: String = month_label(date[1].as_str());
    r.push_str(" ");
    r.push_str(date[2].as_str());
    r.push_str(", ");
    r.push_str(date[0].as_str());
    r.push_str(" - ");
    r.push_str(clock[0].as_str());
    r.push_str(":");
    r.push_str(clock[1].as_str());
    r.push_str(" UTC");
    assert(date.deep_view()[0] == date@[0]@);
    assert(date.deep_view()[1] == date@[1]@);
    assert(date.deep_view()[2] == date@[2]@);
    assert(clock.deep_view()[0] == clock@[0]@);
    assert(clock.deep_view()[1] == clock@[1]@);
    r
}

/// A character in upper case, which may be several characters.
pub uninterp spec fn uppercase(c: char) -> Seq<char>;

/// `char::to_uppercase`: the character in upper case by the rules of Unicode,
/// which go by the name `uppercase`. Of the ASCII characters only the small
/// letters change, to their capitals.
#[verifier::external_body]
fn upper(c: char) -> (r: String)
    ensures
        r@ == uppercase(c),
        'a' <= c <= 'z' ==> r@ == seq![(c as u8 - 32) as u8 as char],
        (c as u32) < 128 && !('a' <= c <= 'z') ==> r@ == seq![c],
{
    c.to_uppercase().to_string()
}

/// `s` with its first character in upper case.
pub open spec fn capitalized(s: Seq<char>) -> Seq<char> {
    if s.len() == 0 {
        s
    } else {
        uppercase(s[0]) + s.skip(1)
    }
}

/// Puts the first character of a text into upper case.
pub fn capitalize_first(s: &str) -> (r: String)
    ensures
        r@ == capitalized(s@),
        s@.len() > 0 && 'a' <= s@[0] <= 'z' ==> r@ == s@.update(
            0,
            (s@[0] as u8 - 32) as u8 as char,
        ),
        s@.len() > 0 && (s@[0] as u32) < 128 && !('a' <= s@[0] <= 'z') ==> r@ == s@,
{
    let chars: Vec<char> = chars_of(s);
    let n: usize = chars.len();
    if n == 0 {
        return String::new();
    }
    let mut r: String = upper(chars[0]);
    assert(chars@.subrange(1, n as int) == chars@.skip(1));
    r.push_str(string_of(&chars, 1, n).as_str());
    r
}

// ---------------------------------------------------------------------------
// Laws
// ---------------------------------------------------------------------------

/// A time is told with its own year, day, hour and minute, whatever the month.
pub proof fn times_are_told(
    year: Seq<char>,
    month: Seq<char>,
    day: Seq<char>,
    hour: Seq<char>,
    minute: Seq<char>,
)
    requires
        !year.contains('-') && !month.contains('-') && !day.contains('-'),
        !year.contains('T') && !month.contains('T') && !day.contains('T'),
        !hour.contains(':') && !minute.contains(':'),
        !hour.contains('T') && !minute.contains('T'),
        !hour.contains('.') && !minute.contains('.'),
        minute.len() > 0,
        minute.last() != 'Z',
    ensures
        api_timestamp(
            join_seq(
                seq![
                    join_seq(seq![year, month, day], "-"@),
                    join_seq(seq![hour, minute], ":"@),
                ],
                "T"@,
            ),
        ) == month_name(month) + " "@ + day + ", "@ + year + " - "@ + hour + ":"@ + minute
            + " UTC"@,
{
    reveal_strlit("-");
    reveal_strlit("T");
    reveal_strlit(":");
    reveal_strlit(".");
    assert("-"@ == seq!['-']);
    assert("T"@ == seq!['T']);
    assert(":"@ == seq![':']);
    assert("."@ == seq!['.']);
    let date = join_seq(seq![year, month, day], "-"@);
    let clock = join_seq(seq![hour, minute], ":"@);
    joined_lacks(seq![year, month, day], "-"@, 'T');
    joined_lacks(seq![hour, minute], ":"@, 'T');
    joined_lacks(seq![hour, minute], ":"@, '.');
    join_splits_back(seq![date, clock], 'T');
    join_splits_back(seq![year, month, day], '-');
    join_splits_back(seq![clock], '.');
    assert(join_seq(seq![clock], "."@) == clock);
    assert(seq![hour, minute].drop_last() == seq![hour]);
    assert(join_seq(seq![hour], ":"@) == hour);
    assert(clock == hour + ":"@ + minute);
    assert(clock.last() == minute.last());
    assert(without_trailing_z(clock) == clock);
    join_splits_back(seq![hour, minute], ':');
}

/// A capitalised text keeps all but its first character.
pub proof fn capitals_come_first(s: Seq<char>)
    ensures
        s.len() > 0 ==> s.skip(1).is_suffix_of(capitalized(s)),
        s.len() == 0 ==> capitalized(s) == s,
{
    if s.len() > 0 {
        let all = capitalized(s);
        assert(all.skip(all.len() - s.skip(1).len()) == s.skip(1));
    }
}

/// Every month has its own name, and what is no month stands as it was written.
pub proof fn months_have_names(month: Seq<char>)
    ensures
        month == "01"@ ==> month_name(month) == "Jan"@,
        month == "02"@ ==> month_name(month) == "Feb"@,
        month == "03"@ ==> month_name(month) == "Mar"@,
        month == "04"@ ==> month_name(month) == "Apr"@,
        month == "05"@ ==> month_name(month) == "May"@,
        month == "06"@ ==> month_name(month) == "Jun"@,
        month == "07"@ ==> month_name(month) == "Jul"@,
        month == "08"@ ==> month_name(month) == "Aug"@,
        month == "09"@ ==> month_name(month) == "Sep"@,
        month == "10"@ ==> month_name(month) == "Oct"@,
        month == "11"@ ==> month_name(month) == "Nov"@,
        month == "12"@ ==> month_name(month) == "Dec"@,
        month.len() != 2 ==> month_name(month) == month,
{
    reveal_strlit("01");
    reveal_strlit("02");
    reveal_strlit("03");
    reveal_strlit("04");
    reveal_strlit("05");
    reveal_strlit("06");
    reveal_strlit("07");
    reveal_strlit("08");
    reveal_strlit("09");
    reveal_strlit("10");
    reveal_strlit("11");
    reveal_strlit("12");
    assert("01"@.len() == 2 && "01"@[0] == '0' && "01"@[1] == '1');
    assert("02"@.len() == 2 && "02"@[0] == '0' && "02"@[1] == '2');
    assert("03"@.len() == 2 && "03"@[0] == '0' && "03"@[1] == '3');
    assert("04"@.len() == 2 && "04"@[0] == '0' && "04"@[1] == '4');
    assert("05"@.len() == 2 && "05"@[0] == '0' && "05"@[1] == '5');
    assert("06"@.len() == 2 && "06"@[0] == '0' && "06"@[1] == '6');
    assert("07"@.len() == 2 && "07"@[0] == '0' && "07"@[1] == '7');
    assert("08"@.len() == 2 && "08"@[0] == '0' && "08"@[1] == '8');
    assert("09"@.len() == 2 && "09"@[0] == '0' && "09"@[1] == '9');
    assert("10"@.len() == 2 && "10"@[0] == '1' && "10"@[1] == '0');
    assert("11"@.len() == 2 && "11"@[0] == '1' && "11"@[1] == '1');
    assert("12"@.len() == 2 && "12"@[0] == '1' && "12"@[1] == '2');
}

} // verus!
