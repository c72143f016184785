//! Pattern-token formatting over the Reader surface: each `%`-token of the
//! pattern is replaced by the rendered field it stands for, one substitution
//! pass per token.  Number rendering is verified here; only the substitution
//! itself relies on `str::replace`.

use vstd::prelude::*;
use vstd::string::*;
use crate::day_count::gregorian_day_index;
use crate::engine::spec_jalali_day_of_year;
use crate::structure::PDate;
use crate::structure::MAX_CIVIL_YEAR;

verus! {

/// What `str::replace` returns: the string with every non-overlapping
/// occurrence of the pattern replaced by the replacement, left to right.
pub uninterp spec fn str_replaced(s: Seq<char>, pat: Seq<char>, rep: Seq<char>) -> Seq<char>;

/// Relies on `str::replace` for the substitution pass itself.
#[verifier::external_body]
fn replace_all(s: &str, pat: &str, rep: &str) -> (r: String)
    ensures
        r@ == str_replaced(s@, pat@, rep@),
{
    s.replace(pat, rep)
}

/// The decimal digit character for a value 0 through 9.
pub open spec fn digit_char(d: int) -> char {
    if d == 0 { '0' }
    else if d == 1 { '1' }
    else if d == 2 { '2' }
    else if d == 3 { '3' }
    else if d == 4 { '4' }
    else if d == 5 { '5' }
    else if d == 6 { '6' }
    else if d == 7 { '7' }
    else if d == 8 { '8' }
    else { '9' }
}

/// The decimal digits of a nonnegative number, most significant first.
pub open spec fn dec_digits(x: int) -> Seq<char>
    decreases x,
{
    if x < 10 {
        seq![digit_char(x)]
    } else {
        dec_digits(x / 10).push(digit_char(x % 10))
    }
}

/// A rendered number has at least one digit, and at least two from 10 up.
proof fn lemma_dec_digits_len(x: int)
    ensures
        dec_digits(x).len() >= 1,
        x >= 10 ==> dec_digits(x).len() >= 2,
    decreases x,
{
    if x >= 10 {
        lemma_dec_digits_len(x / 10);
    }
}

/// A signed number: the digits, with a leading minus for a negative value.
pub open spec fn spec_render_i32(x: int) -> Seq<char> {
    if x >= 0 {
        dec_digits(x)
    } else {
        seq!['-'] + dec_digits(-x)
    }
}

/// Zero-padded to width two.
pub open spec fn spec_pad2(x: int) -> Seq<char> {
    if x < 10 { seq!['0'] + dec_digits(x) } else { dec_digits(x) }
}

/// Space-padded to width two.
pub open spec fn spec_space2(x: int) -> Seq<char> {
    if x < 10 { seq![' '] + dec_digits(x) } else { dec_digits(x) }
}

/// Zero-padded to width three.
pub open spec fn spec_pad3(x: int) -> Seq<char> {
    if x < 10 { seq!['0', '0'] + dec_digits(x) }
    else if x < 100 { seq!['0'] + dec_digits(x) }
    else { dec_digits(x) }
}

/// The Persian weekday names, Saturday first.
pub open spec fn spec_day_name(w: int) -> Seq<char> {
    if w == 0 { "شنبه"@ }
    else if w == 1 { "یک‌شنبه"@ }
    else if w == 2 { "دوشنبه"@ }
    else if w == 3 { "سه‌شنبه"@ }
    else if w == 4 { "چهارشنبه"@ }
    else if w == 5 { "پنج‌شنبه"@ }
    else { "جمعه"@ }
}

/// The Persian month names.
pub open spec fn spec_month_name(m: int) -> Seq<char> {
    if m == 1 { "فروردین"@ }
    else if m == 2 { "اردیبهشت"@ }
    else if m == 3 { "خرداد"@ }
    else if m == 4 { "تیر"@ }
    else if m == 5 { "مرداد"@ }
    else if m == 6 { "شهریور"@ }
    else if m == 7 { "مهر"@ }
    else if m == 8 { "آبان"@ }
    else if m == 9 { "آذر"@ }
    else if m == 10 { "دی"@ }
    else if m == 11 { "بهمن"@ }
    else if m == 12 { "اسفند"@ }
    else { Seq::empty() }
}

/// The English weekday names, Saturday first.
pub open spec fn spec_grg_day_name(w: int) -> Seq<char> {
    if w == 0 { "Saturday"@ }
    else if w == 1 { "Sunday"@ }
    else if w == 2 { "Monday"@ }
    else if w == 3 { "Tuesday"@ }
    else if w == 4 { "Wednesday"@ }
    else if w == 5 { "Thursday"@ }
    else { "Friday"@ }
}

/// The English month names.
pub open spec fn spec_grg_month_name(m: int) -> Seq<char> {
    if m == 1 { "January"@ }
    else if m == 2 { "February"@ }
    else if m == 3 { "March"@ }
    else if m == 4 { "April"@ }
    else if m == 5 { "May"@ }
    else if m == 6 { "June"@ }
    else if m == 7 { "July"@ }
    else if m == 8 { "August"@ }
    else if m == 9 { "September"@ }
    else if m == 10 { "October"@ }
    else if m == 11 { "November"@ }
    else if m == 12 { "December"@ }
    else { Seq::empty() }
}

/// One decimal digit as a string slice.
fn digit_str(d: u64) -> (r: &'static str)
    requires
        d < 10,
    ensures
        r@ == seq![digit_char(d as int)],
{
    if d == 0 { proof { reveal_strlit("0"); assert("0"@ =~= seq![digit_char(0int)]); } "0" }
    else if d == 1 { proof { reveal_strlit("1"); assert("1"@ =~= seq![digit_char(1int)]); } "1" }
    else if d == 2 { proof { reveal_strlit("2"); assert("2"@ =~= seq![digit_char(2int)]); } "2" }
    else if d == 3 { proof { reveal_strlit("3"); assert("3"@ =~= seq![digit_char(3int)]); } "3" }
    else if d == 4 { proof { reveal_strlit("4"); assert("4"@ =~= seq![digit_char(4int)]); } "4" }
    else if d == 5 { proof { reveal_strlit("5"); assert("5"@ =~= seq![digit_char(5int)]); } "5" }
    else if d == 6 { proof { reveal_strlit("6"); assert("6"@ =~= seq![digit_char(6int)]); } "6" }
    else if d == 7 { proof { reveal_strlit("7"); assert("7"@ =~= seq![digit_char(7int)]); } "7" }
    else if d == 8 { proof { reveal_strlit("8"); assert("8"@ =~= seq![digit_char(8int)]); } "8" }
    else { proof { reveal_strlit("9"); assert("9"@ =~= seq![digit_char(9int)]); } "9" }
}

/// Render a nonnegative number in decimal.
fn render_u64(x: u64) -> (s: String)
    ensures
        s@ == dec_digits(x as int),
    decreases x,
{
    if x < 10 {
        digit_str(x).to_owned()
    } else {
        let mut s = render_u64(x / 10);
        s.append(digit_str(x % 10));
        proof {
            assert(s@ =~= dec_digits(x as int));
        }
        s
    }
}

/// Render a signed number in decimal.
fn render_i32(x: i32) -> (s: String)
    ensures
        s@ == spec_render_i32(x as int),
{
    if x >= 0 {
        render_u64(x as u64)
    } else {
        let mut s = String::from_str("-");
        s.append(render_u64((-(x as i64)) as u64).as_str());
        proof {
            reveal_strlit("-");
            assert("-"@ =~= seq!['-']);
        }
        s
    }
}

/// Render zero-padded to width two.
fn render_pad2(x: u64) -> (s: String)
    ensures
        s@ == spec_pad2(x as int),
{
    if x < 10 {
        let mut s = String::from_str("0");
        s.append(digit_str(x));
        proof {
            reveal_strlit("0");
            assert("0"@ =~= seq!['0']);
        }
        s
    } else {
        render_u64(x)
    }
}

/// Render space-padded to width two.
fn render_space2(x: u64) -> (s: String)
    ensures
        s@ == spec_space2(x as int),
{
    if x < 10 {
        let mut s = String::from_str(" ");
        s.append(digit_str(x));
        proof {
            reveal_strlit(" ");
            assert(" "@ =~= seq![' ']);
        }
        s
    } else {
        render_u64(x)
    }
}

/// Render zero-padded to width three.
fn render_pad3(x: u64) -> (s: String)
    ensures
        s@ == spec_pad3(x as int),
{
    if x < 10 {
        let mut s = String::from_str("00");
        s.append(digit_str(x));
        proof {
            reveal_strlit("00");
            assert("00"@ =~= seq!['0', '0']);
        }
        s
    } else if x < 100 {
        let mut s = String::from_str("0");
        s.append(render_u64(x).as_str());
        proof {
            reveal_strlit("0");
            assert("0"@ =~= seq!['0']);
        }
        s
    } else {
        render_u64(x)
    }
}

/// The Persian weekday name for a day-of-week index.
pub(crate) fn day_name_of(w: u32) -> (r: String)
    ensures
        r@ == spec_day_name(w as int),
{
    match w {
        0 => "شنبه".to_owned(),
        1 => "یک‌شنبه".to_owned(),
        2 => "دوشنبه".to_owned(),
        3 => "سه‌شنبه".to_owned(),
        4 => "چهارشنبه".to_owned(),
        5 => "پنج‌شنبه".to_owned(),
        _ => "جمعه".to_owned(),
    }
}

/// The English weekday name for a day-of-week index.
pub(crate) fn grg_day_name_of(w: u32) -> (r: String)
    ensures
        r@ == spec_grg_day_name(w as int),
{
    match w {
        0 => "Saturday".to_owned(),
        1 => "Sunday".to_owned(),
        2 => "Monday".to_owned(),
        3 => "Tuesday".to_owned(),
        4 => "Wednesday".to_owned(),
        5 => "Thursday".to_owned(),
        _ => "Friday".to_owned(),
    }
}

/// The Persian month name for a month number, empty outside 1 through 12.
pub(crate) fn month_name_of(m: u32) -> (r: String)
    ensures
        r@ == spec_month_name(m as int),
{
    match m {
        1 => "فروردین".to_owned(),
        2 => "اردیبهشت".to_owned(),
        3 => "خرداد".to_owned(),
        4 => "تیر".to_owned(),
        5 => "مرداد".to_owned(),
        6 => "شهریور".to_owned(),
        7 => "مهر".to_owned(),
        8 => "آبان".to_owned(),
        9 => "آذر".to_owned(),
        10 => "دی".to_owned(),
        11 => "بهمن".to_owned(),
        12 => "اسفند".to_owned(),
        _ => {
            let s = String::new();
            proof {
                assert(s@ =~= spec_month_name(m as int));
            }
            s
        },
    }
}

/// The English month name for a month number, empty outside 1 through 12.
pub(crate) fn grg_month_name_of(m: u32) -> (r: String)
    ensures
        r@ == spec_grg_month_name(m as int),
{
    match m {
        1 => "January".to_owned(),
        2 => "February".to_owned(),
        3 => "March".to_owned(),
        4 => "April".to_owned(),
        5 => "May".to_owned(),
        6 => "June".to_owned(),
        7 => "July".to_owned(),
        8 => "August".to_owned(),
        9 => "September".to_owned(),
        10 => "October".to_owned(),
        11 => "November".to_owned(),
        12 => "December".to_owned(),
        _ => {
            let s = String::new();
            proof {
                assert(s@ =~= spec_grg_month_name(m as int));
            }
            s
        },
    }
}

/// The pattern with every token substituted, as a function of the value's
/// fields and the zone offset string; the weekday index is the stored
/// Gregorian date's day index modulo 7.
pub open spec fn spec_format(d: PDate, pattern: Seq<char>, tzs: Seq<char>) -> Seq<char> {
    let yv = spec_render_i32(d.year as int);
    let doy = spec_jalali_day_of_year(d.month as int, d.day as int);
    let h12 = if d.hour <= 12 { d.hour as int } else { d.hour - 12 };
    let wd = gregorian_day_index(d.grg_year as int, d.grg_month as int, d.grg_day as int) % 7;
    let s = str_replaced(pattern, "%Y"@, yv);
    let s = str_replaced(s, "%C"@, yv.subrange(0, 2));
    let s = str_replaced(s, "%y"@, yv.subrange(2, yv.len() as int));
    let s = str_replaced(s, "%m"@, spec_pad2(d.month as int));
    let s = str_replaced(s, "%B"@, spec_month_name(d.month as int));
    let s = str_replaced(s, "%d"@, spec_pad2(d.day as int));
    let s = str_replaced(s, "%e"@, spec_space2(d.day as int));
    let s = str_replaced(s, "%A"@, spec_day_name(wd));
    let s = str_replaced(s, "%w"@, dec_digits(wd));
    let s = str_replaced(s, "%U"@, spec_pad2(doy / 7));
    let s = str_replaced(s, "%j"@, spec_pad3(doy));
    let s = str_replaced(s, "%H"@, spec_pad2(d.hour as int));
    let s = str_replaced(s, "%k"@, spec_space2(d.hour as int));
    let s = str_replaced(s, "%I"@, spec_pad2(h12));
    let s = str_replaced(s, "%l"@, spec_space2(h12));
    let s = str_replaced(s, "%P"@, if d.hour < 12 { "قبل از ظهر"@ } else { "بعد از ظهر"@ });
    let s = str_replaced(s, "%p"@, if d.hour < 12 { "ق.ظ"@ } else { "ب.ظ"@ });
    let s = str_replaced(s, "%M"@, spec_pad2(d.minute as int));
    let s = str_replaced(s, "%S"@, spec_pad2(d.second as int));
    let s = str_replaced(s, "%f"@, dec_digits(d.nano_second as int));
    let s = str_replaced(
        s, "%.f"@, dec_digits(d.second as int) + seq!['.'] + dec_digits(d.nano_second as int));
    str_replaced(s, "%:z"@, tzs)
}

pub trait Format {
    /// Whether the value can be formatted: the year must have at least two
    /// rendered characters (for the century and short-year tokens) and the
    /// calendar fields of both calendars must be in range.
    spec fn format_ready(&self) -> bool;

    /// The substitution model: the formatted text as a function of the
    /// value, the pattern and a zone offset string.
    spec fn format_model(&self, pattern: Seq<char>, tzs: Seq<char>) -> Seq<char>;

    /// Substitute every token of the pattern with the field it names.  The
    /// zone offset string is existential because the zone value is opaque;
    /// it is either a sign followed by two digit pairs or empty.
    fn format(&self, pattern: &str) -> (r: String)
        requires
            self.format_ready(),
        ensures
            exists|tzs: Seq<char>|
                ((tzs.len() == 6 && (tzs[0] == '+' || tzs[0] == '-')) || tzs.len() == 0)
                    && r@ == #[trigger] self.format_model(pattern@, tzs),
    ;
}

impl Format for PDate {
    open spec fn format_ready(&self) -> bool {
        &&& (self.year >= 10 || self.year < 0)
        &&& 1 <= self.month <= 12
        &&& self.day <= 31
        &&& 1 <= self.grg_year <= MAX_CIVIL_YEAR
        &&& 1 <= self.grg_month <= 12
        &&& 1 <= self.grg_day <= 31
    }

    open spec fn format_model(&self, pattern: Seq<char>, tzs: Seq<char>) -> Seq<char> {
        spec_format(*self, pattern, tzs)
    }

    #[verifier::rlimit(60)]
    fn format(&self, pattern: &str) -> (r: String) {
        let yv = render_i32(self.year);
        proof {
            lemma_dec_digits_len(if self.year >= 0 { self.year as int } else { -(self.year as int) });
        }
        let ylen = yv.as_str().unicode_len();
        let wd = self.day_of_week();
        proof {
            assert(wd as int == gregorian_day_index(
                self.grg_year as int, self.grg_month as int, self.grg_day as int) % 7);
        }
        let tzs = self.format_timezone();
        let doy = self.day_of_year();
        let h12 = self.hour_12();
        let s = replace_all(pattern, "%Y", yv.as_str());
        let s = replace_all(s.as_str(), "%C", yv.as_str().substring_char(0, 2));
        let s = replace_all(s.as_str(), "%y", yv.as_str().substring_char(2, ylen));
        let s = replace_all(s.as_str(), "%m", render_pad2(self.month as u64).as_str());
        let s = replace_all(s.as_str(), "%B", month_name_of(self.month).as_str());
        let s = replace_all(s.as_str(), "%d", render_pad2(self.day as u64).as_str());
        let s = replace_all(s.as_str(), "%e", render_space2(self.day as u64).as_str());
        let s = replace_all(s.as_str(), "%A", day_name_of(wd).as_str());
        let s = replace_all(s.as_str(), "%w", render_u64(wd as u64).as_str());
        let s = replace_all(s.as_str(), "%U", render_pad2((doy / 7) as u64).as_str());
        let s = replace_all(s.as_str(), "%j", render_pad3(doy as u64).as_str());
        let s = replace_all(s.as_str(), "%H", render_pad2(self.hour as u64).as_str());
        let s = replace_all(s.as_str(), "%k", render_space2(self.hour as u64).as_str());
        let s = replace_all(s.as_str(), "%I", render_pad2(h12 as u64).as_str());
        let s = replace_all(s.as_str(), "%l", render_space2(h12 as u64).as_str());
        let s = replace_all(s.as_str(), "%P", self.time_of_day().as_str());
        let s = replace_all(s.as_str(), "%p", self.short_time_of_day().as_str());
        let s = replace_all(s.as_str(), "%M", render_pad2(self.minute as u64).as_str());
        let s = replace_all(s.as_str(), "%S", render_pad2(self.second as u64).as_str());
        let s = replace_all(s.as_str(), "%f", render_u64(self.nano_second as u64).as_str());
        let mut frac = render_u64(self.second as u64);
        frac.append(".");
        frac.append(render_u64(self.nano_second as u64).as_str());
        let s = replace_all(s.as_str(), "%.f", frac.as_str());
        let s = replace_all(s.as_str(), "%:z", tzs.as_str());
        proof {
            reveal_strlit(".");
            assert("."@ =~= seq!['.']);
            assert(frac@ =~= dec_digits(self.second as int) + seq!['.']
                + dec_digits(self.nano_second as int));
            assert(s@ == spec_format(*self, pattern@, tzs@));
            assert(s@ == self.format_model(pattern@, tzs@));
        }
        s
    }
}

/// The canonical textual rendering, `YYYY-MM-DD HH:MM:SS` with the zone
/// offset.
impl PDate {
    pub fn display_string(&self) -> (r: String)
        requires
            self.format_ready(),
        ensures
            exists|tzs: Seq<char>|
                ((tzs.len() == 6 && (tzs[0] == '+' || tzs[0] == '-')) || tzs.len() == 0)
                    && r@ == #[trigger] self.format_model("%Y-%m-%d %H:%M:%S %:z"@, tzs),
    {
        self.format("%Y-%m-%d %H:%M:%S %:z")
    }
}

} // verus!
