use vstd::prelude::*;

verus! {

/// A calendar date and time of day, held as plain fields. Run folders are
/// named by such a timestamp rendered in the fixed pattern
/// `YYYY-MM-DD HH_MM_SS`, so the name doubles as a sortable retention key.
#[derive(Clone, Copy, PartialEq, Eq, Structural, Debug)]
pub struct Timestamp {
    pub year: i32,
    pub month: u32,
    pub day: u32,
    pub hour: u32,
    pub minute: u32,
    pub second: u32,
}

/// Leap years of the proleptic Gregorian calendar.
pub open spec fn is_leap_year(y: int) -> bool {
    y % 4 == 0 && (y % 100 != 0 || y % 400 == 0)
}

/// Number of days of month `m` of year `y`.
pub open spec fn days_in_month(y: int, m: int) -> int {
    if m == 2 {
        if is_leap_year(y) {
            29
        } else {
            28
        }
    } else if m == 4 || m == 6 || m == 9 || m == 11 {
        30
    } else {
        31
    }
}

impl Timestamp {
    /// The fields form a real calendar date and time whose year has at most
    /// four digits, so that the fixed-width run-folder pattern can hold it.
    pub open spec fn wf(&self) -> bool {
        &&& 0 <= self.year <= 9999
        &&& 1 <= self.month <= 12
        &&& 1 <= self.day <= days_in_month(self.year as int, self.month as int)
        &&& self.hour <= 23
        &&& self.minute <= 59
        &&& self.second <= 59
    }

    /// The calendar fields are in range; the year may lie outside the
    /// four-digit span that the run-folder pattern can hold.
    pub open spec fn fields_in_range(&self) -> bool {
        &&& 1 <= self.month <= 12
        &&& 1 <= self.day <= days_in_month(self.year as int, self.month as int)
        &&& self.hour <= 23
        &&& self.minute <= 59
        &&& self.second <= 59
    }

    /// Strictly earlier in time: lexicographic over the fields, which agrees
    /// with chronological order because the fields are big-endian.
    pub open spec fn before_spec(&self, other: &Timestamp) -> bool {
        if self.year != other.year {
            self.year < other.year
        } else if self.month != other.month {
            self.month < other.month
        } else if self.day != other.day {
            self.day < other.day
        } else if self.hour != other.hour {
            self.hour < other.hour
        } else if self.minute != other.minute {
            self.minute < other.minute
        } else {
            self.second < other.second
        }
    }

    /// Whether this timestamp lies strictly before `other`.
    pub fn is_before(&self, other: &Timestamp) -> (r: bool)
        ensures
            r == self.before_spec(other),
    {
        if self.year != other.year {
            self.year < other.year
        } else if self.month != other.month {
            self.month < other.month
        } else if self.day != other.day {
            self.day < other.day
        } else if self.hour != other.hour {
            self.hour < other.hour
        } else if self.minute != other.minute {
            self.minute < other.minute
        } else {
            self.second < other.second
        }
    }
}

/// The decimal digit character for `d`.
pub open spec fn digit_char(d: int) -> char {
    if d == 0 {
        '0'
    } else if d == 1 {
        '1'
    } else if d == 2 {
        '2'
    } else if d == 3 {
        '3'
    } else if d == 4 {
        '4'
    } else if d == 5 {
        '5'
    } else if d == 6 {
        '6'
    } else if d == 7 {
        '7'
    } else if d == 8 {
        '8'
    } else {
        '9'
    }
}

/// `n` rendered as two decimal digits, zero padded.
pub open spec fn spec_pad2(n: int) -> Seq<char> {
    seq![digit_char(n / 10), digit_char(n % 10)]
}

/// `n` rendered as four decimal digits, zero padded.
pub open spec fn spec_pad4(n: int) -> Seq<char> {
    seq![
        digit_char(n / 1000),
        digit_char((n / 100) % 10),
        digit_char((n / 10) % 10),
        digit_char(n % 10),
    ]
}

/// The run-folder name of a timestamp: `YYYY-MM-DD HH_MM_SS`, fixed width,
/// zero padded, with a space between date and time and underscores inside
/// the time.
pub open spec fn spec_run_name(ts: Timestamp) -> Seq<char> {
    spec_pad4(ts.year as int) + seq!['-'] + spec_pad2(ts.month as int) + seq!['-'] + spec_pad2(
        ts.day as int,
    ) + seq![' '] + spec_pad2(ts.hour as int) + seq!['_'] + spec_pad2(ts.minute as int)
        + seq!['_'] + spec_pad2(ts.second as int)
}

/// Append the decimal digit character for `d`.
fn push_digit(out: &mut String, d: u32)
    requires
        d < 10,
    ensures
        final(out)@ == old(out)@.push(digit_char(d as int)),
{
    let ghost prev = out@;
    if d == 0 {
        out.append("0");
        proof {
            reveal_strlit("0");
        }
    } else if d == 1 {
        out.append("1");
        proof {
            reveal_strlit("1");
        }
    } else if d == 2 {
        out.append("2");
        proof {
            reveal_strlit("2");
        }
    } else if d == 3 {
        out.append("3");
        proof {
            reveal_strlit("3");
        }
    } else if d == 4 {
        out.append("4");
        proof {
            reveal_strlit("4");
        }
    } else if d == 5 {
        out.append("5");
        proof {
            reveal_strlit("5");
        }
    } else if d == 6 {
        out.append("6");
        proof {
            reveal_strlit("6");
        }
    } else if d == 7 {
        out.append("7");
        proof {
            reveal_strlit("7");
        }
    } else if d == 8 {
        out.append("8");
        proof {
            reveal_strlit("8");
        }
    } else {
        out.append("9");
        proof {
            reveal_strlit("9");
        }
    }
    proof {
        assert(out@ =~= prev.push(digit_char(d as int)));
    }
}

/// Append `n` as two zero-padded decimal digits.
fn push_pad2(out: &mut String, n: u32)
    requires
        n < 100,
    ensures
        final(out)@ == old(out)@ + spec_pad2(n as int),
{
    let ghost prev = out@;
    push_digit(out, n / 10);
    push_digit(out, n % 10);
    proof {
        assert(out@ =~= prev + spec_pad2(n as int));
    }
}

/// Append `n` as four zero-padded decimal digits.
fn push_pad4(out: &mut String, n: u32)
    requires
        n < 10000,
    ensures
        final(out)@ == old(out)@ + spec_pad4(n as int),
{
    let ghost prev = out@;
    push_digit(out, n / 1000);
    push_digit(out, (n / 100) % 10);
    push_digit(out, (n / 10) % 10);
    push_digit(out, n % 10);
    proof {
        assert(out@ =~= prev + spec_pad4(n as int));
    }
}

/// Render the run-folder name of a timestamp.
pub fn render_run_name(ts: &Timestamp) -> (r: String)
    requires
        ts.wf(),
    ensures
        r@ == spec_run_name(*ts),
{
    let mut out = String::new();
    push_pad4(&mut out, ts.year as u32);
    out.append("-");
    push_pad2(&mut out, ts.month);
    out.append("-");
    push_pad2(&mut out, ts.day);
    out.append(" ");
    push_pad2(&mut out, ts.hour);
    out.append("_");
    push_pad2(&mut out, ts.minute);
    out.append("_");
    push_pad2(&mut out, ts.second);
    proof {
        reveal_strlit("-");
        reveal_strlit(" ");
        reveal_strlit("_");
        assert(out@ =~= spec_run_name(*ts));
    }
    out
}

/// `c` is a decimal digit character.
pub open spec fn is_digit(c: char) -> bool {
    48 <= c as int <= 57
}

/// The numeric value of a digit character.
pub open spec fn char_digit(c: char) -> int {
    c as int - 48
}

/// The two-digit field of a run-folder name starting at index `i`.
pub open spec fn name_field2(s: Seq<char>, i: int) -> int {
    char_digit(s[i]) * 10 + char_digit(s[i + 1])
}

/// The four-digit year field of a run-folder name.
pub open spec fn name_year(s: Seq<char>) -> int {
    char_digit(s[0]) * 1000 + char_digit(s[1]) * 100 + char_digit(s[2]) * 10 + char_digit(s[3])
}

/// The text has the shape of a run-folder name: nineteen characters, digits
/// in the six fields, the fixed separators in between.
pub open spec fn run_name_shape(s: Seq<char>) -> bool {
    &&& s.len() == 19
    &&& is_digit(s[0]) && is_digit(s[1]) && is_digit(s[2]) && is_digit(s[3])
    &&& s[4] == '-'
    &&& is_digit(s[5]) && is_digit(s[6])
    &&& s[7] == '-'
    &&& is_digit(s[8]) && is_digit(s[9])
    &&& s[10] == ' '
    &&& is_digit(s[11]) && is_digit(s[12])
    &&& s[13] == '_'
    &&& is_digit(s[14]) && is_digit(s[15])
    &&& s[16] == '_'
    &&& is_digit(s[17]) && is_digit(s[18])
}

/// The text is a run-folder name: right shape, and the fields form a real
/// calendar date and time. Any other directory name is foreign to the logger
/// and retention never touches it.
pub open spec fn valid_run_name(s: Seq<char>) -> bool {
    &&& run_name_shape(s)
    &&& 1 <= name_field2(s, 5) <= 12
    &&& 1 <= name_field2(s, 8) <= days_in_month(name_year(s), name_field2(s, 5))
    &&& name_field2(s, 11) <= 23
    &&& name_field2(s, 14) <= 59
    &&& name_field2(s, 17) <= 59
}

/// The timestamp encoded by a run-folder name.
pub open spec fn spec_parse(s: Seq<char>) -> Timestamp {
    Timestamp {
        year: name_year(s) as i32,
        month: name_field2(s, 5) as u32,
        day: name_field2(s, 8) as u32,
        hour: name_field2(s, 11) as u32,
        minute: name_field2(s, 14) as u32,
        second: name_field2(s, 17) as u32,
    }
}

/// Number of days of month `m` of year `y`.
pub fn days_in_month_of(y: u32, m: u32) -> (r: u32)
    requires
        1 <= m <= 12,
    ensures
        r as int == days_in_month(y as int, m as int),
{
    if m == 2 {
        if y % 4 == 0 && (y % 100 != 0 || y % 400 == 0) {
            29
        } else {
            28
        }
    } else if m == 4 || m == 6 || m == 9 || m == 11 {
        30
    } else {
        31
    }
}

/// The digit value of the character of `name` at index `i`, if it is one.
fn digit_val(name: &str, i: usize) -> (r: Option<u32>)
    requires
        i < name@.len(),
    ensures
        r is Some <==> is_digit(name@[i as int]),
        r is Some ==> r->0 as int == char_digit(name@[i as int]) && r->0 < 10,
{
    let c = name.get_char(i);
    let v: u32 = c as u32;
    if 48 <= v && v <= 57 {
        Some(v - 48)
    } else {
        None
    }
}

/// Parse a directory name as a run-folder timestamp. Returns the timestamp
/// exactly when the name follows the fixed `YYYY-MM-DD HH_MM_SS` pattern
/// with real calendar fields; any other name is foreign.
pub fn parse_run_name(name: &str) -> (r: Option<Timestamp>)
    ensures
        r is Some <==> valid_run_name(name@),
        r is Some ==> r->0 == spec_parse(name@) && r->0.wf(),
{
    let n = name.unicode_len();
    if n != 19 {
        return None;
    }
    if name.get_char(4) != '-' || name.get_char(7) != '-' || name.get_char(10) != ' '
        || name.get_char(13) != '_' || name.get_char(16) != '_' {
        return None;
    }
    let d0 = match digit_val(name, 0) {
        Some(v) => v,
        None => {
            return None;
        },
    };
    let d1 = match digit_val(name, 1) {
        Some(v) => v,
        None => {
            return None;
        },
    };
    let d2 = match digit_val(name, 2) {
        Some(v) => v,
        None => {
            return None;
        },
    };
    let d3 = match digit_val(name, 3) {
        Some(v) => v,
        None => {
            return None;
        },
    };
    let d5 = match digit_val(name, 5) {
        Some(v) => v,
        None => {
            return None;
        },
    };
    let d6 = match digit_val(name, 6) {
        Some(v) => v,
        None => {
            return None;
        },
    };
    let d8 = match digit_val(name, 8) {
        Some(v) => v,
        None => {
            return None;
        },
    };
    let d9 = match digit_val(name, 9) {
        Some(v) => v,
        None => {
            return None;
        },
    };
    let d11 = match digit_val(name, 11) {
        Some(v) => v,
        None => {
            return None;
        },
    };
    let d12 = match digit_val(name, 12) {
        Some(v) => v,
        None => {
            return None;
        },
    };
    let d14 = match digit_val(name, 14) {
        Some(v) => v,
        None => {
            return None;
        },
    };
    let d15 = match digit_val(name, 15) {
        Some(v) => v,
        None => {
            return None;
        },
    };
    let d17 = match digit_val(name, 17) {
        Some(v) => v,
        None => {
            return None;
        },
    };
    let d18 = match digit_val(name, 18) {
        Some(v) => v,
        None => {
            return None;
        },
    };
    let year: u32 = d0 * 1000 + d1 * 100 + d2 * 10 + d3;
    let month: u32 = d5 * 10 + d6;
    if month < 1 || month > 12 {
        return None;
    }
    let day: u32 = d8 * 10 + d9;
    let dim = days_in_month_of(year, month);
    if day < 1 || day > dim {
        return None;
    }
    let hour: u32 = d11 * 10 + d12;
    if hour > 23 {
        return None;
    }
    let minute: u32 = d14 * 10 + d15;
    if minute > 59 {
        return None;
    }
    let second: u32 = d17 * 10 + d18;
    if second > 59 {
        return None;
    }
    Some(
        Timestamp {
            year: year as i32,
            month,
            day,
            hour,
            minute,
            second,
        },
    )
}

/// The four digits of a value below ten thousand compose back to it.
proof fn lemma_digits4(y: int)
    requires
        0 <= y <= 9999,
    ensures
        (y / 1000) * 1000 + ((y / 100) % 10) * 100 + ((y / 10) % 10) * 10 + y % 10 == y,
        0 <= y / 1000 <= 9,
        0 <= (y / 100) % 10 <= 9,
        0 <= (y / 10) % 10 <= 9,
        0 <= y % 10 <= 9,
{
    assert((y / 1000) * 1000 + ((y / 100) % 10) * 100 + ((y / 10) % 10) * 10 + y % 10 == y
        && 0 <= y / 1000 <= 9 && 0 <= (y / 100) % 10 <= 9 && 0 <= (y / 10) % 10 <= 9 && 0 <= y % 10
        <= 9) by (nonlinear_arith)
        requires
            0 <= y <= 9999,
    ;
}

/// The two digits of a value below one hundred compose back to it.
proof fn lemma_digits2(m: int)
    requires
        0 <= m <= 99,
    ensures
        (m / 10) * 10 + m % 10 == m,
        0 <= m / 10 <= 9,
        0 <= m % 10 <= 9,
{
}

/// Four digits determine the value they compose.
proof fn lemma_compose4(c0: int, c1: int, c2: int, c3: int)
    requires
        0 <= c0 <= 9,
        0 <= c1 <= 9,
        0 <= c2 <= 9,
        0 <= c3 <= 9,
    ensures
        (c0 * 1000 + c1 * 100 + c2 * 10 + c3) / 1000 == c0,
        ((c0 * 1000 + c1 * 100 + c2 * 10 + c3) / 100) % 10 == c1,
        ((c0 * 1000 + c1 * 100 + c2 * 10 + c3) / 10) % 10 == c2,
        (c0 * 1000 + c1 * 100 + c2 * 10 + c3) % 10 == c3,
{
    assert((c0 * 1000 + c1 * 100 + c2 * 10 + c3) / 1000 == c0 && ((c0 * 1000 + c1 * 100 + c2 * 10
        + c3) / 100) % 10 == c1 && ((c0 * 1000 + c1 * 100 + c2 * 10 + c3) / 10) % 10 == c2 && (c0
        * 1000 + c1 * 100 + c2 * 10 + c3) % 10 == c3) by (nonlinear_arith)
        requires
            0 <= c0 <= 9,
            0 <= c1 <= 9,
            0 <= c2 <= 9,
            0 <= c3 <= 9,
    ;
}

/// Two digits determine the value they compose.
proof fn lemma_compose2(c0: int, c1: int)
    requires
        0 <= c0 <= 9,
        0 <= c1 <= 9,
    ensures
        (c0 * 10 + c1) / 10 == c0,
        (c0 * 10 + c1) % 10 == c1,
{
}

/// A digit character carries its digit back.
proof fn lemma_digit_char_roundtrip(d: int)
    requires
        0 <= d <= 9,
    ensures
        is_digit(digit_char(d)),
        char_digit(digit_char(d)) == d,
{
}

/// A digit's value renders back to the same character.
proof fn lemma_char_digit_roundtrip(c: char)
    requires
        is_digit(c),
    ensures
        digit_char(char_digit(c)) == c,
{
    let d = char_digit(c);
    if d == 0 {
        assert(c as int == '0' as int);
        assert(c == '0');
    } else if d == 1 {
        assert(c == '1');
    } else if d == 2 {
        assert(c == '2');
    } else if d == 3 {
        assert(c == '3');
    } else if d == 4 {
        assert(c == '4');
    } else if d == 5 {
        assert(c == '5');
    } else if d == 6 {
        assert(c == '6');
    } else if d == 7 {
        assert(c == '7');
    } else if d == 8 {
        assert(c == '8');
    } else {
        assert(c == '9');
    }
}

/// The name of a well-formed timestamp is a valid run-folder name, and
/// parses back to the very same timestamp.
pub proof fn lemma_render_parse(ts: Timestamp)
    requires
        ts.wf(),
    ensures
        valid_run_name(spec_run_name(ts)),
        spec_parse(spec_run_name(ts)) == ts,
{
    let s = spec_run_name(ts);
    lemma_digits4(ts.year as int);
    lemma_digits2(ts.month as int);
    lemma_digits2(ts.day as int);
    lemma_digits2(ts.hour as int);
    lemma_digits2(ts.minute as int);
    lemma_digits2(ts.second as int);
    assert forall|d: int| 0 <= d <= 9 implies is_digit(digit_char(d)) && char_digit(digit_char(d))
        == d by {
        lemma_digit_char_roundtrip(d);
    }
    assert(s.len() == 19);
    assert(s[0] == digit_char(ts.year as int / 1000));
    assert(s[1] == digit_char((ts.year as int / 100) % 10));
    assert(s[2] == digit_char((ts.year as int / 10) % 10));
    assert(s[3] == digit_char(ts.year as int % 10));
    assert(s[4] == '-');
    assert(s[5] == digit_char(ts.month as int / 10));
    assert(s[6] == digit_char(ts.month as int % 10));
    assert(s[7] == '-');
    assert(s[8] == digit_char(ts.day as int / 10));
    assert(s[9] == digit_char(ts.day as int % 10));
    assert(s[10] == ' ');
    assert(s[11] == digit_char(ts.hour as int / 10));
    assert(s[12] == digit_char(ts.hour as int % 10));
    assert(s[13] == '_');
    assert(s[14] == digit_char(ts.minute as int / 10));
    assert(s[15] == digit_char(ts.minute as int % 10));
    assert(s[16] == '_');
    assert(s[17] == digit_char(ts.second as int / 10));
    assert(s[18] == digit_char(ts.second as int % 10));
    assert(name_year(s) == ts.year as int);
    assert(name_field2(s, 5) == ts.month as int);
    assert(name_field2(s, 8) == ts.day as int);
    assert(name_field2(s, 11) == ts.hour as int);
    assert(name_field2(s, 14) == ts.minute as int);
    assert(name_field2(s, 17) == ts.second as int);
}

/// A valid run-folder name is exactly the rendering of the timestamp it
/// parses to: parsing loses nothing.
pub proof fn lemma_parse_render(s: Seq<char>)
    requires
        valid_run_name(s),
    ensures
        spec_parse(s).wf(),
        spec_run_name(spec_parse(s)) == s,
{
    let ts = spec_parse(s);
    lemma_compose4(char_digit(s[0]), char_digit(s[1]), char_digit(s[2]), char_digit(s[3]));
    lemma_compose2(char_digit(s[5]), char_digit(s[6]));
    lemma_compose2(char_digit(s[8]), char_digit(s[9]));
    lemma_compose2(char_digit(s[11]), char_digit(s[12]));
    lemma_compose2(char_digit(s[14]), char_digit(s[15]));
    lemma_compose2(char_digit(s[17]), char_digit(s[18]));
    lemma_char_digit_roundtrip(s[0]);
    lemma_char_digit_roundtrip(s[1]);
    lemma_char_digit_roundtrip(s[2]);
    lemma_char_digit_roundtrip(s[3]);
    lemma_char_digit_roundtrip(s[5]);
    lemma_char_digit_roundtrip(s[6]);
    lemma_char_digit_roundtrip(s[8]);
    lemma_char_digit_roundtrip(s[9]);
    lemma_char_digit_roundtrip(s[11]);
    lemma_char_digit_roundtrip(s[12]);
    lemma_char_digit_roundtrip(s[14]);
    lemma_char_digit_roundtrip(s[15]);
    lemma_char_digit_roundtrip(s[17]);
    lemma_char_digit_roundtrip(s[18]);
    assert(spec_run_name(ts) =~= s);
}

/// Strict lexicographic order of two texts of equal length: at the first
/// position where they differ, the first text holds the smaller character.
pub open spec fn lex_lt(x: Seq<char>, y: Seq<char>) -> bool
    recommends
        x.len() == y.len(),
{
    exists|k: int|
        #![trigger x[k], y[k]]
        {
            &&& 0 <= k < x.len()
            &&& k < y.len()
            &&& (x[k] as int) < (y[k] as int)
            &&& forall|m: int| 0 <= m < k ==> x[m] == y[m]
        }
}

/// A digit character's code point carries its value.
proof fn lemma_digit_char_value(d: int)
    requires
        0 <= d <= 9,
    ensures
        digit_char(d) as int == 48 + d,
{
}

/// Where the smaller of two two-digit values first differs from the larger.
proof fn lemma_two_digit_order(x: int, y: int)
    requires
        0 <= x < y <= 99,
    ensures
        x / 10 < y / 10 || (x / 10 == y / 10 && x % 10 < y % 10),
{
    vstd::arithmetic::div_mod::lemma_div_is_ordered(x, y, 10);
    vstd::arithmetic::div_mod::lemma_fundamental_div_mod(x, 10);
    vstd::arithmetic::div_mod::lemma_fundamental_div_mod(y, 10);
}

/// Where the smaller of two four-digit values first differs from the larger.
proof fn lemma_four_digit_order(x: int, y: int)
    requires
        0 <= x < y <= 9999,
    ensures
        x / 1000 < y / 1000 || (x / 1000 == y / 1000 && ((x / 100) % 10 < (y / 100) % 10 || ((x
            / 100) % 10 == (y / 100) % 10 && ((x / 10) % 10 < (y / 10) % 10 || ((x / 10) % 10 == (y
            / 10) % 10 && x % 10 < y % 10))))),
{
    vstd::arithmetic::div_mod::lemma_div_is_ordered(x, y, 1000);
    vstd::arithmetic::div_mod::lemma_div_is_ordered(x, y, 100);
    vstd::arithmetic::div_mod::lemma_div_is_ordered(x, y, 10);
    vstd::arithmetic::div_mod::lemma_div_denominator(x, 100, 10);
    vstd::arithmetic::div_mod::lemma_div_denominator(y, 100, 10);
    vstd::arithmetic::div_mod::lemma_div_denominator(x, 10, 10);
    vstd::arithmetic::div_mod::lemma_div_denominator(y, 10, 10);
    vstd::arithmetic::div_mod::lemma_fundamental_div_mod(x / 100, 10);
    vstd::arithmetic::div_mod::lemma_fundamental_div_mod(y / 100, 10);
    vstd::arithmetic::div_mod::lemma_fundamental_div_mod(x / 10, 10);
    vstd::arithmetic::div_mod::lemma_fundamental_div_mod(y / 10, 10);
    vstd::arithmetic::div_mod::lemma_fundamental_div_mod(x, 10);
    vstd::arithmetic::div_mod::lemma_fundamental_div_mod(y, 10);
}

/// Two-digit renderings order as their values.
proof fn lemma_pad2_lex(x: int, y: int)
    requires
        0 <= x < y <= 99,
    ensures
        lex_lt(spec_pad2(x), spec_pad2(y)),
{
    lemma_two_digit_order(x, y);
    lemma_digits2(x);
    lemma_digits2(y);
    assert forall|d1: int, d2: int| 0 <= d1 < d2 <= 9 implies (digit_char(d1) as int) < (digit_char(
        d2,
    ) as int) by {
        lemma_digit_char_value(d1);
        lemma_digit_char_value(d2);
    }
    if x / 10 < y / 10 {
        assert(spec_pad2(x)[0] == digit_char(x / 10));
        assert(lex_lt(spec_pad2(x), spec_pad2(y)));
    } else {
        assert(spec_pad2(x)[1] == digit_char(x % 10));
        assert(spec_pad2(x)[0] == spec_pad2(y)[0]);
        assert forall|m: int| 0 <= m < 1 implies spec_pad2(x)[m] == spec_pad2(y)[m] by {
            assert(m == 0);
        }
        assert(lex_lt(spec_pad2(x), spec_pad2(y)));
    }
}

/// Four-digit renderings order as their values.
proof fn lemma_pad4_lex(x: int, y: int)
    requires
        0 <= x < y <= 9999,
    ensures
        lex_lt(spec_pad4(x), spec_pad4(y)),
{
    lemma_four_digit_order(x, y);
    lemma_digits4(x);
    lemma_digits4(y);
    assert forall|d1: int, d2: int| 0 <= d1 < d2 <= 9 implies (digit_char(d1) as int) < (digit_char(
        d2,
    ) as int) by {
        lemma_digit_char_value(d1);
        lemma_digit_char_value(d2);
    }
    if x / 1000 < y / 1000 {
        assert((spec_pad4(x)[0] as int) < (spec_pad4(y)[0] as int));
        assert(lex_lt(spec_pad4(x), spec_pad4(y)));
    } else if (x / 100) % 10 < (y / 100) % 10 {
        assert((spec_pad4(x)[1] as int) < (spec_pad4(y)[1] as int));
        assert forall|m: int| 0 <= m < 1 implies spec_pad4(x)[m] == spec_pad4(y)[m] by {
            assert(m == 0);
        }
        assert(lex_lt(spec_pad4(x), spec_pad4(y)));
    } else if (x / 10) % 10 < (y / 10) % 10 {
        assert((spec_pad4(x)[2] as int) < (spec_pad4(y)[2] as int));
        assert forall|m: int| 0 <= m < 2 implies spec_pad4(x)[m] == spec_pad4(y)[m] by {
            assert(m == 0 || m == 1);
        }
        assert(lex_lt(spec_pad4(x), spec_pad4(y)));
    } else {
        assert((spec_pad4(x)[3] as int) < (spec_pad4(y)[3] as int));
        assert forall|m: int| 0 <= m < 3 implies spec_pad4(x)[m] == spec_pad4(y)[m] by {
            assert(m == 0 || m == 1 || m == 2);
        }
        assert(lex_lt(spec_pad4(x), spec_pad4(y)));
    }
}

/// A first difference survives appending any suffixes of matching start.
proof fn lemma_lex_lt_extend(x: Seq<char>, y: Seq<char>, sx: Seq<char>, sy: Seq<char>)
    requires
        lex_lt(x, y),
        x.len() == y.len(),
    ensures
        lex_lt(x + sx, y + sy),
{
    let k = choose|k: int|
        #![trigger x[k], y[k]]
        {
            &&& 0 <= k < x.len()
            &&& k < y.len()
            &&& (x[k] as int) < (y[k] as int)
            &&& forall|m: int| 0 <= m < k ==> x[m] == y[m]
        };
    assert((x + sx)[k] == x[k]);
    assert((y + sy)[k] == y[k]);
    assert forall|m: int| 0 <= m < k implies (x + sx)[m] == (y + sy)[m] by {
        assert((x + sx)[m] == x[m]);
        assert((y + sy)[m] == y[m]);
    }
    assert(lex_lt(x + sx, y + sy));
}

/// A first difference survives an equal prefix in front.
proof fn lemma_lex_lt_common_prefix(p: Seq<char>, x: Seq<char>, y: Seq<char>)
    requires
        lex_lt(x, y),
    ensures
        lex_lt(p + x, p + y),
{
    let k = choose|k: int|
        #![trigger x[k], y[k]]
        {
            &&& 0 <= k < x.len()
            &&& k < y.len()
            &&& (x[k] as int) < (y[k] as int)
            &&& forall|m: int| 0 <= m < k ==> x[m] == y[m]
        };
    let k2 = p.len() + k;
    assert((p + x)[k2] == x[k]);
    assert((p + y)[k2] == y[k]);
    assert forall|m: int| 0 <= m < k2 implies (p + x)[m] == (p + y)[m] by {
        if m < p.len() {
            assert((p + x)[m] == p[m]);
            assert((p + y)[m] == p[m]);
        } else {
            assert((p + x)[m] == x[m - p.len()]);
            assert((p + y)[m] == y[m - p.len()]);
        }
    }
    assert(lex_lt(p + x, p + y));
}

/// An earlier timestamp renders to a lexicographically smaller name.
#[verifier::rlimit(60)]
proof fn lemma_time_lt_implies_name_lt(a: Timestamp, b: Timestamp)
    requires
        a.wf(),
        b.wf(),
        a.before_spec(&b),
    ensures
        lex_lt(spec_run_name(a), spec_run_name(b)),
{
    let na = spec_run_name(a);
    let nb = spec_run_name(b);
    let dash = seq!['-'];
    let space = seq![' '];
    let under = seq!['_'];
    if a.year != b.year {
        lemma_pad4_lex(a.year as int, b.year as int);
        let sa = dash + spec_pad2(a.month as int) + dash + spec_pad2(a.day as int) + space
            + spec_pad2(a.hour as int) + under + spec_pad2(a.minute as int) + under + spec_pad2(
            a.second as int,
        );
        let sb = dash + spec_pad2(b.month as int) + dash + spec_pad2(b.day as int) + space
            + spec_pad2(b.hour as int) + under + spec_pad2(b.minute as int) + under + spec_pad2(
            b.second as int,
        );
        lemma_lex_lt_extend(spec_pad4(a.year as int), spec_pad4(b.year as int), sa, sb);
        assert(na =~= spec_pad4(a.year as int) + sa);
        assert(nb =~= spec_pad4(b.year as int) + sb);
    } else if a.month != b.month {
        lemma_pad2_lex(a.month as int, b.month as int);
        let p = spec_pad4(a.year as int) + dash;
        let sa = dash + spec_pad2(a.day as int) + space + spec_pad2(a.hour as int) + under
            + spec_pad2(a.minute as int) + under + spec_pad2(a.second as int);
        let sb = dash + spec_pad2(b.day as int) + space + spec_pad2(b.hour as int) + under
            + spec_pad2(b.minute as int) + under + spec_pad2(b.second as int);
        lemma_lex_lt_extend(spec_pad2(a.month as int), spec_pad2(b.month as int), sa, sb);
        lemma_lex_lt_common_prefix(p, spec_pad2(a.month as int) + sa, spec_pad2(b.month as int) + sb);
        assert(na =~= p + (spec_pad2(a.month as int) + sa));
        assert(nb =~= p + (spec_pad2(b.month as int) + sb));
    } else if a.day != b.day {
        lemma_pad2_lex(a.day as int, b.day as int);
        let p = spec_pad4(a.year as int) + dash + spec_pad2(a.month as int) + dash;
        let sa = space + spec_pad2(a.hour as int) + under + spec_pad2(a.minute as int) + under
            + spec_pad2(a.second as int);
        let sb = space + spec_pad2(b.hour as int) + under + spec_pad2(b.minute as int) + under
            + spec_pad2(b.second as int);
        lemma_lex_lt_extend(spec_pad2(a.day as int), spec_pad2(b.day as int), sa, sb);
        lemma_lex_lt_common_prefix(p, spec_pad2(a.day as int) + sa, spec_pad2(b.day as int) + sb);
        assert(na =~= p + (spec_pad2(a.day as int) + sa));
        assert(nb =~= p + (spec_pad2(b.day as int) + sb));
    } else if a.hour != b.hour {
        lemma_pad2_lex(a.hour as int, b.hour as int);
        let p = spec_pad4(a.year as int) + dash + spec_pad2(a.month as int) + dash + spec_pad2(
            a.day as int,
        ) + space;
        let sa = under + spec_pad2(a.minute as int) + under + spec_pad2(a.second as int);
        let sb = under + spec_pad2(b.minute as int) + under + spec_pad2(b.second as int);
        lemma_lex_lt_extend(spec_pad2(a.hour as int), spec_pad2(b.hour as int), sa, sb);
        lemma_lex_lt_common_prefix(p, spec_pad2(a.hour as int) + sa, spec_pad2(b.hour as int) + sb);
        assert(na =~= p + (spec_pad2(a.hour as int) + sa));
        assert(nb =~= p + (spec_pad2(b.hour as int) + sb));
    } else if a.minute != b.minute {
        lemma_pad2_lex(a.minute as int, b.minute as int);
        let p = spec_pad4(a.year as int) + dash + spec_pad2(a.month as int) + dash + spec_pad2(
            a.day as int,
        ) + space + spec_pad2(a.hour as int) + under;
        let sa = under + spec_pad2(a.second as int);
        let sb = under + spec_pad2(b.second as int);
        lemma_lex_lt_extend(spec_pad2(a.minute as int), spec_pad2(b.minute as int), sa, sb);
        lemma_lex_lt_common_prefix(
            p,
            spec_pad2(a.minute as int) + sa,
            spec_pad2(b.minute as int) + sb,
        );
        assert(na =~= p + (spec_pad2(a.minute as int) + sa));
        assert(nb =~= p + (spec_pad2(b.minute as int) + sb));
    } else {
        lemma_pad2_lex(a.second as int, b.second as int);
        let p = spec_pad4(a.year as int) + dash + spec_pad2(a.month as int) + dash + spec_pad2(
            a.day as int,
        ) + space + spec_pad2(a.hour as int) + under + spec_pad2(a.minute as int) + under;
        lemma_lex_lt_common_prefix(p, spec_pad2(a.second as int), spec_pad2(b.second as int));
        assert(na =~= p + spec_pad2(a.second as int));
        assert(nb =~= p + spec_pad2(b.second as int));
    }
}

/// Run-folder names order exactly as the timestamps they encode: the
/// fixed-width, zero-padded, big-endian pattern makes a folder's name
/// itself the sortable retention key.
pub proof fn lemma_name_order_is_time_order(a: Timestamp, b: Timestamp)
    requires
        a.wf(),
        b.wf(),
    ensures
        lex_lt(spec_run_name(a), spec_run_name(b)) <==> a.before_spec(&b),
{
    let na = spec_run_name(a);
    let nb = spec_run_name(b);
    if a.before_spec(&b) {
        lemma_time_lt_implies_name_lt(a, b);
    }
    if lex_lt(na, nb) && !a.before_spec(&b) {
        if a == b {
            let k = choose|k: int|
                #![trigger na[k], nb[k]]
                {
                    &&& 0 <= k < na.len()
                    &&& k < nb.len()
                    &&& (na[k] as int) < (nb[k] as int)
                    &&& forall|m: int| 0 <= m < k ==> na[m] == nb[m]
                };
            assert(false);
        } else {
            assert(b.before_spec(&a));
            lemma_time_lt_implies_name_lt(b, a);
            let k1 = choose|k: int|
                #![trigger na[k], nb[k]]
                {
                    &&& 0 <= k < na.len()
                    &&& k < nb.len()
                    &&& (na[k] as int) < (nb[k] as int)
                    &&& forall|m: int| 0 <= m < k ==> na[m] == nb[m]
                };
            let k2 = choose|k: int|
                #![trigger nb[k], na[k]]
                {
                    &&& 0 <= k < nb.len()
                    &&& k < na.len()
                    &&& (nb[k] as int) < (na[k] as int)
                    &&& forall|m: int| 0 <= m < k ==> nb[m] == na[m]
                };
            if k1 < k2 {
                assert(nb[k1] == na[k1]);
            } else if k2 < k1 {
                assert(na[k2] == nb[k2]);
            }
            assert(false);
        }
    }
}

} // verus!
