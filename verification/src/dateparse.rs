//! Date and time input: `YYYY-MM-DD`, `YYYY-MM-DD HH:MM`, and English or Japanese
//! natural language relative to the current day ("tomorrow 3pm", "next friday",
//! "in 3 days", "明日の午後3時", "来週火曜の15時").
use vstd::prelude::*;
use crate::text::{
    chars_of, ends_with, eq_str, find, find_char, has_prefix, has_suffix, is_whitespace,
    is_ws, lowercase, parse_i64, parse_u32, remove_char, slice_of, spec_parse_i64, spec_parse_u32,
    starts_with, to_lowercase, trim, trim_chars, trim_end_all, trim_end_matches, trim_start_all,
    trim_start_matches, without_char, dec, digit_char, all_digits, digits_value, is_digit,
};
use crate::time::{
    chrono_parse_ymd, chrono_parse_ymd_hm, clock_now, from_hms, hms, parse_ymd, parse_ymd_hm, Date,
    DateTime, Moment, Time,
};

verus! {

// ---------------------------------------------------------------------------------------------
// Specification
// ---------------------------------------------------------------------------------------------

/// Midnight.
pub open spec fn midnight() -> Time {
    Time { secs: 0 }
}

/// The first date strictly after `from` (at most a week later) that falls on `target`
/// (Monday = 0).
pub open spec fn next_weekday_spec(from: Date, target: int) -> Option<Date> {
    let ahead = (target - from.weekday() + 7) % 7;
    from.plus(if ahead == 0 {
        7
    } else {
        ahead
    })
}

/// The date in the Monday-to-Sunday week of `from` that falls on `target`.
pub open spec fn weekday_this_week_spec(from: Date, target: int) -> Option<Date> {
    from.plus(target - from.weekday())
}

/// Japanese weekday names (月, 火曜, 水曜日, ...), Monday = 0.
pub open spec fn jp_weekday_spec(s: Seq<char>) -> Option<int> {
    let t = trim_end_all(trim_end_all(s, "曜日"@), "曜"@);
    if t == "月"@ {
        Some(0)
    } else if t == "火"@ {
        Some(1)
    } else if t == "水"@ {
        Some(2)
    } else if t == "木"@ {
        Some(3)
    } else if t == "金"@ {
        Some(4)
    } else if t == "土"@ {
        Some(5)
    } else if t == "日"@ {
        Some(6)
    } else {
        None
    }
}

/// English weekday names and their three-letter abbreviations, Monday = 0.
pub open spec fn en_weekday_spec(s: Seq<char>) -> Option<int> {
    if s == "monday"@ || s == "mon"@ {
        Some(0)
    } else if s == "tuesday"@ || s == "tue"@ {
        Some(1)
    } else if s == "wednesday"@ || s == "wed"@ {
        Some(2)
    } else if s == "thursday"@ || s == "thu"@ {
        Some(3)
    } else if s == "friday"@ || s == "fri"@ {
        Some(4)
    } else if s == "saturday"@ || s == "sat"@ {
        Some(5)
    } else if s == "sunday"@ || s == "sun"@ {
        Some(6)
    } else {
        None
    }
}

/// The whitespace-separated words of `s` (`str::split_whitespace`).
pub open spec fn words(s: Seq<char>) -> Seq<Seq<char>>
    decreases s.len(),
{
    if s.len() == 0 {
        Seq::empty()
    } else if is_ws(s[0]) {
        words(s.drop_first())
    } else {
        let rest = words(s.drop_first());
        if s.len() > 1 && !is_ws(s[1]) && rest.len() > 0 {
            rest.update(0, seq![s[0]] + rest[0])
        } else {
            seq![seq![s[0]]] + rest
        }
    }
}

/// "N days" / "N day" with a signed integer N.
pub open spec fn relative_days_spec(s: Seq<char>) -> Option<i64> {
    let w = words(s);
    if w.len() == 2 && (w[1] == "days"@ || w[1] == "day"@) {
        spec_parse_i64(w[0])
    } else {
        None
    }
}

/// A clock time: `H:M` (24-hour), or an hour followed by `am`/`pm` with spaces ignored.
pub open spec fn time_spec(s: Seq<char>) -> Option<Time> {
    let t = lowercase(trim(s));
    match find_char(t, ':') {
        Some(i) => match (
            spec_parse_u32(t.subrange(0, i)),
            spec_parse_u32(t.subrange(i + 1, t.len() as int)),
        ) {
            (Some(h), Some(m)) => hms(h as int, m as int, 0),
            _ => None,
        },
        None => {
            let u = remove_char(t, ' ');
            if ends_with(u, "pm"@) || ends_with(u, "am"@) {
                let pm = ends_with(u, "pm"@);
                match spec_parse_u32(u.subrange(0, u.len() - 2)) {
                    Some(h) => hms(
                        if pm && h != 12 {
                            h + 12
                        } else if !pm && h == 12 {
                            0
                        } else {
                            h as int
                        },
                        0,
                        0,
                    ),
                    None => None,
                }
            } else {
                None
            }
        },
    }
}

proof fn lemma_dec_digits(n: nat)
    ensures
        dec(n).len() > 0,
        all_digits(dec(n)),
        digits_value(dec(n)) == n,
    decreases n,
{
    if n < 10 {
        assert(digit_char(n as int) as int == n + 48);
        assert(is_digit(digit_char(n as int)));
        assert(seq![digit_char(n as int)].drop_last() =~= Seq::<char>::empty());
        assert(all_digits(dec(n)));
        assert(digits_value(Seq::<char>::empty()) == 0);
        assert('0' as int == 48);
        assert(digits_value(dec(n)) == digits_value(dec(n).drop_last()) * 10 + (dec(n).last() as int - '0' as int));
    } else {
        lemma_dec_digits(n / 10);
        let k = (n % 10) as int;
        assert(digit_char(k) as int == k + 48);
        assert(is_digit(digit_char(k)));
        assert(dec(n).drop_last() =~= dec(n / 10));
        assert(dec(n) == dec(n / 10).push(digit_char(k)));
        assert('0' as int == 48);
        assert(dec(n).last() == digit_char(k));
        assert(digits_value(dec(n)) == digits_value(dec(n).drop_last()) * 10 + (dec(n).last() as int - '0' as int));
        assert((n / 10) * 10 + k == n);
        assert forall|i: int| 0 <= i < dec(n).len() implies is_digit(#[trigger] dec(n)[i]) by {
            if i < dec(n / 10).len() {
                assert(dec(n)[i] == dec(n / 10)[i]);
            }
        }
    }
}

proof fn lemma_char_absent(s: Seq<char>, c: char)
    requires
        forall|i: int| 0 <= i < s.len() ==> s[i] != c,
    ensures
        find_char(s, c) is None,
        remove_char(s, c) == s,
    decreases s.len(),
{
    if s.len() > 0 {
        lemma_char_absent(s.drop_first(), c);
        lemma_char_absent(s.drop_last(), c);
        assert(s.drop_last().push(s.last()) =~= s);
    }
}

proof fn lemma_find_after(d: Seq<char>, rest: Seq<char>, c: char)
    requires
        forall|i: int| 0 <= i < d.len() ==> d[i] != c,
        rest.len() > 0,
        rest[0] == c,
    ensures
        find_char(d + rest, c) == Some(d.len() as int),
    decreases d.len(),
{
    if d.len() > 0 {
        lemma_find_after(d.drop_first(), rest, c);
        assert((d + rest).drop_first() =~= d.drop_first() + rest);
    } else {
        assert(d + rest =~= rest);
    }
}

/// The 24-hour clock: an hour below 24, a colon and a minute below 60 read as that time of
/// day, whatever the case and surrounding spaces of the text.
pub proof fn law_colon_clock(s: Seq<char>, h: nat, m: nat)
    requires
        h < 24,
        m < 60,
        lowercase(trim(s)) == dec(h) + seq![':'] + dec(m),
    ensures
        time_spec(s) == Some(Time { secs: (h * 3600 + m * 60) as u32 }),
{
    lemma_dec_digits(h);
    lemma_dec_digits(m);
    let dh = dec(h);
    let dm = dec(m);
    let t = dh + seq![':'] + dm;
    assert forall|i: int| 0 <= i < dh.len() implies dh[i] != ':' by {
        assert(is_digit(dh[i]));
    }
    assert(t =~= dh + (seq![':'] + dm));
    lemma_find_after(dh, seq![':'] + dm, ':');
    assert(t.subrange(0, dh.len() as int) =~= dh);
    assert(t.subrange(dh.len() as int + 1, t.len() as int) =~= dm);
    assert(dh[0] != '+') by {
        assert(is_digit(dh[0]));
    }
    assert(dm[0] != '+') by {
        assert(is_digit(dm[0]));
    }
    assert(spec_parse_u32(dh) == Some(h as u32));
    assert(spec_parse_u32(dm) == Some(m as u32));
}

/// The 12-hour clock: an hour from 1 to 12 followed by `pm` reads as that hour past noon
/// (12pm is noon), and followed by `am` as that hour of the morning (12am is midnight),
/// whatever the case and surrounding spaces of the text.
pub proof fn law_twelve_hour_clock(s: Seq<char>, h: nat, pm: bool)
    requires
        1 <= h <= 12,
        lowercase(trim(s)) == dec(h) + (if pm { "pm"@ } else { "am"@ }),
    ensures
        time_spec(s) == Some(Time { secs: ((if pm { h % 12 + 12 } else { h % 12 }) * 3600) as u32 }),
{
    reveal_strlit("pm");
    reveal_strlit("am");
    lemma_dec_digits(h);
    let d = dec(h);
    let suffix = if pm { "pm"@ } else { "am"@ };
    let t = d + suffix;
    assert forall|i: int| 0 <= i < t.len() implies t[i] != ':' && t[i] != ' ' by {
        if i < d.len() {
            assert(is_digit(d[i]));
        }
    }
    lemma_char_absent(t, ':');
    lemma_char_absent(t, ' ');
    assert(t.subrange(t.len() - 2, t.len() as int) =~= suffix);
    assert(t.subrange(0, t.len() - 2) =~= d);
    if pm {
        assert(ends_with(t, "pm"@));
    } else {
        assert(ends_with(t, "am"@));
        assert(!ends_with(t, "pm"@)) by {
            assert(t.subrange(t.len() - 2, t.len() as int)[0] == 'a');
            assert("pm"@[0] == 'p');
        }
    }
    assert(d.len() > 0 && d[0] != '+') by {
        assert(is_digit(d[0]));
    }
    assert(spec_parse_u32(d) == Some(h as u32));
}

/// A Japanese clock time: 午後3時, 午前9時, 15時, 15時30分.
pub open spec fn jp_time_spec(s: Seq<char>) -> Option<Time> {
    let t = trim(s);
    if starts_with(t, "午後"@) {
        match spec_parse_u32(trim_end_all(trim_start_all(t, "午後"@), "時"@)) {
            Some(h) => hms(
                if h != 12 {
                    h + 12
                } else {
                    h as int
                },
                0,
                0,
            ),
            None => None,
        }
    } else if starts_with(t, "午前"@) {
        match spec_parse_u32(trim_end_all(trim_start_all(t, "午前"@), "時"@)) {
            Some(h) => hms(
                if h == 12 {
                    0
                } else {
                    h as int
                },
                0,
                0,
            ),
            None => None,
        }
    } else {
        match find_char(t, '時') {
            Some(i) => {
                let after = t.subrange(i + 1, t.len() as int);
                let minutes_part = match find_char(after, '時') {
                    Some(j) => after.subrange(0, j),
                    None => after,
                };
                match spec_parse_u32(t.subrange(0, i)) {
                    Some(h) => {
                        let m: int = if minutes_part.len() > 0 {
                            match spec_parse_u32(trim_end_all(minutes_part, "分"@)) {
                                Some(m) => m as int,
                                None => 0,
                            }
                        } else {
                            0
                        };
                        hms(h as int, m, 0)
                    },
                    None => None,
                }
            },
            None => None,
        }
    }
}

/// A Japanese day expression: 今日, 明日, 明後日, 昨日, 来週<weekday>, 今週<weekday>.
pub open spec fn jp_date_spec(d: Seq<char>, today: Date) -> Option<Date> {
    if d == "今日"@ {
        Some(today)
    } else if d == "明日"@ {
        today.plus(1)
    } else if d == "明後日"@ {
        today.plus(2)
    } else if d == "昨日"@ {
        today.plus(-1)
    } else if starts_with(d, "来週"@) {
        match jp_weekday_spec(d.subrange("来週"@.len() as int, d.len() as int)) {
            Some(wd) => match today.plus(7) {
                Some(from) => next_weekday_spec(from, wd),
                None => None,
            },
            None => None,
        }
    } else if starts_with(d, "今週"@) {
        match jp_weekday_spec(d.subrange("今週"@.len() as int, d.len() as int)) {
            Some(wd) => weekday_this_week_spec(today, wd),
            None => None,
        }
    } else {
        None
    }
}

/// A Japanese date, optionally followed by の and a clock time (明日の3時).
pub open spec fn japanese_spec(s: Seq<char>, today: Date) -> Option<(Date, Time)> {
    let (date_part, time_part) = match find_char(s, 'の') {
        Some(i) => (trim(s.subrange(0, i)), Some(trim(s.subrange(i + 1, s.len() as int)))),
        None => (trim(s), None),
    };
    match jp_date_spec(date_part, today) {
        Some(d) => Some(
            (
                d,
                match time_part {
                    Some(tp) => match jp_time_spec(tp) {
                        Some(t) => t,
                        None => midnight(),
                    },
                    None => midnight(),
                },
            ),
        ),
        None => None,
    }
}

/// Where `s.splitn(3, ' ')` starts its last part: after the first space, or after the
/// second space when there are two or more.
pub open spec fn last_split(s: Seq<char>) -> Option<int> {
    match find_char(s, ' ') {
        None => None,
        Some(i) => match find_char(s.subrange(i + 1, s.len() as int), ' ') {
            None => Some(i),
            Some(j) => Some(i + 1 + j),
        },
    }
}

/// An English day expression: today, tomorrow, yesterday, next <weekday>, in N days.
pub open spec fn en_date_spec(d: Seq<char>, today: Date) -> Option<Date> {
    if d == "today"@ {
        Some(today)
    } else if d == "tomorrow"@ {
        today.plus(1)
    } else if d == "yesterday"@ {
        today.plus(-1)
    } else if starts_with(d, "next "@) {
        match en_weekday_spec(d.subrange("next "@.len() as int, d.len() as int)) {
            Some(wd) => match today.plus(1) {
                Some(from) => next_weekday_spec(from, wd),
                None => None,
            },
            None => None,
        }
    } else if starts_with(d, "in "@) {
        match relative_days_spec(d.subrange("in "@.len() as int, d.len() as int)) {
            Some(n) => today.plus(n as int),
            None => None,
        }
    } else {
        None
    }
}

/// An English date, optionally followed by a clock time as its last word.
pub open spec fn english_spec(s: Seq<char>, today: Date) -> Option<(Date, Time)> {
    let (date_str, time) = match last_split(s) {
        Some(k) => match time_spec(s.subrange(k + 1, s.len() as int)) {
            Some(t) => (s.subrange(0, k), t),
            None => (s, midnight()),
        },
        None => (s, midnight()),
    };
    match en_date_spec(date_str, today) {
        Some(d) => Some((d, time)),
        None => None,
    }
}

/// Natural language: Japanese first, then English (lowercased), then a bare clock time today.
pub open spec fn natural_spec(s: Seq<char>, today: Date) -> Option<(Date, Time)> {
    match japanese_spec(s, today) {
        Some(r) => Some(r),
        None => match english_spec(lowercase(s), today) {
            Some(r) => Some(r),
            None => match time_spec(lowercase(s)) {
                Some(t) => Some((today, t)),
                None => None,
            },
        },
    }
}

/// What a date-and-time input denotes, given the current instant.
pub open spec fn datetime_spec(s: Seq<char>, now: Moment) -> Option<DateTime> {
    let t = trim(s);
    match parse_ymd_hm(t) {
        Some(dt) => Some(dt),
        None => match parse_ymd(t) {
            Some(d) => Some(DateTime { date: d, time: midnight() }),
            None => if now.wf() {
                match natural_spec(t, now.local().date) {
                    Some((d, tm)) => Some(DateTime { date: d, time: tm }),
                    None => None,
                }
            } else {
                None
            },
        },
    }
}

/// What a date input denotes, given the current date.
pub open spec fn date_spec(s: Seq<char>, today: Date) -> Option<Date> {
    let t = trim(s);
    match parse_ymd(t) {
        Some(d) => Some(d),
        None => match natural_spec(t, today) {
            Some((d, _)) => Some(d),
            None => None,
        },
    }
}

/// What an all-day date input denotes: a date without a clock time.
pub open spec fn all_day_date_spec(s: Seq<char>, today: Date) -> Option<Date> {
    let t = trim(s);
    if parse_ymd_hm(t) is Some {
        None
    } else {
        match parse_ymd(t) {
            Some(d) => Some(d),
            None => match natural_spec(t, today) {
                Some((d, tm)) => if tm == midnight() {
                    Some(d)
                } else {
                    None
                },
                None => None,
            },
        }
    }
}

// ---------------------------------------------------------------------------------------------
// Implementation
// ---------------------------------------------------------------------------------------------

fn starts(s: &[char], p: &str) -> (r: bool)
    ensures
        r == starts_with(s@, p@),
{
    let pv = chars_of(p);
    has_prefix(s, &pv)
}

fn ends(s: &[char], p: &str) -> (r: bool)
    ensures
        r == ends_with(s@, p@),
{
    let pv = chars_of(p);
    has_suffix(s, &pv)
}

/// Everything after the prefix `p` of `s`.
fn after_prefix(s: &[char], p: &str) -> (r: Vec<char>)
    requires
        starts_with(s@, p@),
    ensures
        r@ == s@.subrange(p@.len() as int, s@.len() as int),
{
    let pv = chars_of(p);
    slice_of(s, pv.len(), s.len())
}

fn next_weekday(from: Date, target: u32) -> (r: Option<Date>)
    requires
        from.valid(),
        target < 7,
    ensures
        r == next_weekday_spec(from, target as int),
{
    let current = from.weekday_index();
    let ahead = (target + 7 - current) % 7;
    let ahead = if ahead == 0 {
        7
    } else {
        ahead
    };
    from.add_days(ahead as i64)
}

fn next_weekday_this_week(from: Date, target: u32) -> (r: Option<Date>)
    requires
        from.valid(),
        target < 7,
    ensures
        r == weekday_this_week_spec(from, target as int),
{
    let current = from.weekday_index();
    from.add_days(target as i64 - current as i64)
}

fn parse_jp_weekday(s: &[char]) -> (r: Option<u32>)
    ensures
        r matches Some(w) ==> w < 7,
        match jp_weekday_spec(s@) {
            Some(w) => r == Some(w as u32),
            None => r is None,
        },
{
    let a = chars_of("曜日");
    let b = chars_of("曜");
    proof {
        reveal_strlit("曜日");
        reveal_strlit("曜");
    }
    let t1 = trim_end_matches(s, &a);
    let t = trim_end_matches(&t1, &b);
    if eq_str(&t, "月") {
        Some(0)
    } else if eq_str(&t, "火") {
        Some(1)
    } else if eq_str(&t, "水") {
        Some(2)
    } else if eq_str(&t, "木") {
        Some(3)
    } else if eq_str(&t, "金") {
        Some(4)
    } else if eq_str(&t, "土") {
        Some(5)
    } else if eq_str(&t, "日") {
        Some(6)
    } else {
        None
    }
}

fn parse_en_weekday(s: &[char]) -> (r: Option<u32>)
    ensures
        r matches Some(w) ==> w < 7,
        match en_weekday_spec(s@) {
            Some(w) => r == Some(w as u32),
            None => r is None,
        },
{
    if eq_str(s, "monday") || eq_str(s, "mon") {
        Some(0)
    } else if eq_str(s, "tuesday") || eq_str(s, "tue") {
        Some(1)
    } else if eq_str(s, "wednesday") || eq_str(s, "wed") {
        Some(2)
    } else if eq_str(s, "thursday") || eq_str(s, "thu") {
        Some(3)
    } else if eq_str(s, "friday") || eq_str(s, "fri") {
        Some(4)
    } else if eq_str(s, "saturday") || eq_str(s, "sat") {
        Some(5)
    } else if eq_str(s, "sunday") || eq_str(s, "sun") {
        Some(6)
    } else {
        None
    }
}

proof fn lemma_words_nonempty(s: Seq<char>)
    requires
        s.len() > 0,
        !is_ws(s[0]),
    ensures
        words(s).len() > 0,
{
}

/// `words` of the suffix of `s` starting at `i`.
fn words_from(s: &[char], i: usize) -> (r: Vec<Vec<char>>)
    requires
        i <= s@.len(),
    ensures
        r@.len() == words(s@.subrange(i as int, s@.len() as int)).len(),
        forall|k: int|
            0 <= k < r@.len() ==> #[trigger] r@[k]@ == words(
                s@.subrange(i as int, s@.len() as int),
            )[k],
    decreases s@.len() - i,
{
    let ghost t = s@.subrange(i as int, s@.len() as int);
    if i == s.len() {
        return Vec::new();
    }
    proof {
        assert(t.drop_first() =~= s@.subrange(i as int + 1, s@.len() as int));
        assert(t[0] == s@[i as int]);
    }
    if is_whitespace(s[i]) {
        return words_from(s, i + 1);
    }
    let mut rest = words_from(s, i + 1);
    let ghost wr = words(t.drop_first());
    if i + 1 < s.len() && !is_whitespace(s[i + 1]) && rest.len() > 0 {
        proof {
            assert(t[1] == s@[i as int + 1]);
        }
        let mut first: Vec<char> = Vec::new();
        first.push(s[i]);
        let mut old_first = rest[0].clone();
        proof {
            assert(old_first@ == rest@[0]@);
        }
        first.append(&mut old_first);
        let ghost before = rest@;
        rest.set(0, first);
        proof {
            let w = words(t);
            assert(w == wr.update(0, seq![t[0]] + wr[0]));
            assert forall|k: int| 0 <= k < rest@.len() implies #[trigger] rest@[k]@ == w[k] by {
                if k != 0 {
                    assert(rest@[k] == before[k]);
                }
            }
        }
        rest
    } else {
        let mut res: Vec<Vec<char>> = Vec::new();
        let mut single: Vec<char> = Vec::new();
        single.push(s[i]);
        res.push(single);
        let ghost before = rest@;
        res.append(&mut rest);
        proof {
            if i + 1 < s.len() {
                assert(t[1] == s@[i as int + 1]);
            }
            let w = words(t);
            assert(w == seq![seq![t[0]]] + wr);
            assert forall|k: int| 0 <= k < res@.len() implies #[trigger] res@[k]@ == w[k] by {
                if k == 0 {
                    assert(res@[0]@ =~= seq![t[0]]);
                } else {
                    assert(res@[k] == before[k - 1]);
                }
            }
        }
        res
    }
}

fn parse_relative_days(s: &[char]) -> (r: Option<i64>)
    ensures
        r == relative_days_spec(s@),
{
    let w = words_from(s, 0);
    proof {
        assert(s@.subrange(0, s@.len() as int) =~= s@);
    }
    if w.len() == 2 && (eq_str(&w[1], "days") || eq_str(&w[1], "day")) {
        parse_i64(&w[0])
    } else {
        None
    }
}

/// The hour of a 12-hour reading.
fn twelve_hour(h: u32, pm: bool) -> (r: Option<Time>)
    ensures
        r == hms(
            if pm && h != 12 {
                h + 12
            } else if !pm && h == 12 {
                0
            } else {
                h as int
            },
            0,
            0,
        ),
{
    if pm && h != 12 {
        if h >= 12 {
            None
        } else {
            from_hms(h + 12, 0, 0)
        }
    } else if !pm && h == 12 {
        from_hms(0, 0, 0)
    } else {
        from_hms(h, 0, 0)
    }
}

fn time_of(s: &[char]) -> (r: Option<Time>)
    ensures
        r == time_spec(s@),
{
    let trimmed = trim_chars(s);
    let t = to_lowercase(&trimmed);
    match find(&t, ':') {
        Some(i) => {
            assert(i < t@.len());
            let hs = slice_of(&t, 0, i);
            let ms = slice_of(&t, i + 1, t.len());
            match (parse_u32(&hs), parse_u32(&ms)) {
                (Some(h), Some(m)) => from_hms(h, m, 0),
                _ => None,
            }
        },
        None => {
            let u = without_char(&t, ' ');
            if ends(&u, "pm") || ends(&u, "am") {
                let pm = ends(&u, "pm");
                proof {
                    reveal_strlit("pm");
                    reveal_strlit("am");
                }
                let num = slice_of(&u, 0, u.len() - 2);
                match parse_u32(&num) {
                    Some(h) => twelve_hour(h, pm),
                    None => None,
                }
            } else {
                None
            }
        },
    }
}

/// Reads a time of day: `H:M`, or an hour with `am`/`pm` (`3pm`, `11 am`).
pub fn parse_time_str(s: &str) -> (r: Option<Time>)
    ensures
        r == time_spec(s@),
{
    time_of(&chars_of(s))
}

/// Reads a Japanese time of day: `午後3時`, `午前9時`, `15時30分`.
pub fn parse_jp_time(s: &str) -> (r: Option<Time>)
    ensures
        r == jp_time_spec(s@),
{
    jp_time_of(&chars_of(s))
}

fn jp_time_of(s: &[char]) -> (r: Option<Time>)
    ensures
        r == jp_time_spec(s@),
{
    let t = trim_chars(s);
    let ji = chars_of("時");
    proof {
        reveal_strlit("時");
        reveal_strlit("分");
        reveal_strlit("午後");
        reveal_strlit("午前");
    }
    if starts(&t, "午後") {
        let pat = chars_of("午後");
        let rest = trim_start_matches(&t, &pat);
        let num = trim_end_matches(&rest, &ji);
        match parse_u32(&num) {
            Some(h) => {
                if h != 12 {
                    if h >= 12 {
                        None
                    } else {
                        from_hms(h + 12, 0, 0)
                    }
                } else {
                    from_hms(h, 0, 0)
                }
            },
            None => None,
        }
    } else if starts(&t, "午前") {
        let pat = chars_of("午前");
        let rest = trim_start_matches(&t, &pat);
        let num = trim_end_matches(&rest, &ji);
        match parse_u32(&num) {
            Some(h) => {
                if h == 12 {
                    from_hms(0, 0, 0)
                } else {
                    from_hms(h, 0, 0)
                }
            },
            None => None,
        }
    } else {
        match find(&t, '時') {
            Some(i) => {
                assert(i < t@.len());
                let after = slice_of(&t, i + 1, t.len());
                let minutes_part = match find(&after, '時') {
                    Some(j) => slice_of(&after, 0, j),
                    None => slice_of(&after, 0, after.len()),
                };
                proof {
                    assert(after@.subrange(0, after@.len() as int) =~= after@);
                }
                let hs = slice_of(&t, 0, i);
                match parse_u32(&hs) {
                    Some(h) => {
                        let m: u32 = if minutes_part.len() > 0 {
                            let fen = chars_of("分");
                            let ms = trim_end_matches(&minutes_part, &fen);
                            match parse_u32(&ms) {
                                Some(m) => m,
                                None => 0,
                            }
                        } else {
                            0
                        };
                        from_hms(h, m, 0)
                    },
                    None => None,
                }
            },
            None => None,
        }
    }
}

fn jp_date(d: &[char], today: Date) -> (r: Option<Date>)
    requires
        today.valid(),
    ensures
        r == jp_date_spec(d@, today),
{
    if eq_str(d, "今日") {
        Some(today)
    } else if eq_str(d, "明日") {
        today.add_days(1)
    } else if eq_str(d, "明後日") {
        today.add_days(2)
    } else if eq_str(d, "昨日") {
        today.add_days(-1)
    } else if starts(d, "来週") {
        let rest = after_prefix(d, "来週");
        match parse_jp_weekday(&rest) {
            Some(wd) => match today.add_days(7) {
                Some(from) => next_weekday(from, wd),
                None => None,
            },
            None => None,
        }
    } else if starts(d, "今週") {
        let rest = after_prefix(d, "今週");
        match parse_jp_weekday(&rest) {
            Some(wd) => next_weekday_this_week(today, wd),
            None => None,
        }
    } else {
        None
    }
}

fn parse_japanese(s: &[char], today: Date) -> (r: Option<(Date, Time)>)
    requires
        today.valid(),
    ensures
        r == japanese_spec(s@, today),
{
    let (date_part, time_part) = match find(s, 'の') {
        Some(i) => {
            assert(i < s@.len());
            let d = slice_of(s, 0, i);
            let t = slice_of(s, i + 1, s.len());
            (trim_chars(&d), Some(trim_chars(&t)))
        },
        None => (trim_chars(s), None),
    };
    match jp_date(&date_part, today) {
        Some(d) => {
            let time = match time_part {
                Some(tp) => match jp_time_of(&tp) {
                    Some(t) => t,
                    None => Time { secs: 0 },
                },
                None => Time { secs: 0 },
            };
            Some((d, time))
        },
        None => None,
    }
}

fn split_point(s: &[char]) -> (r: Option<usize>)
    ensures
        match r {
            Some(k) => last_split(s@) == Some(k as int) && k < s@.len() && k < s.len(),
            None => last_split(s@) is None,
        },
{
    match find(s, ' ') {
        None => None,
        Some(i) => {
            assert(i < s@.len());
            let rest = slice_of(s, i + 1, s.len());
            match find(&rest, ' ') {
                None => Some(i),
                Some(j) => Some(i + 1 + j),
            }
        },
    }
}

fn en_date(d: &[char], today: Date) -> (r: Option<Date>)
    requires
        today.valid(),
    ensures
        r == en_date_spec(d@, today),
{
    if eq_str(d, "today") {
        Some(today)
    } else if eq_str(d, "tomorrow") {
        today.add_days(1)
    } else if eq_str(d, "yesterday") {
        today.add_days(-1)
    } else if starts(d, "next ") {
        let rest = after_prefix(d, "next ");
        match parse_en_weekday(&rest) {
            Some(wd) => match today.add_days(1) {
                Some(from) => next_weekday(from, wd),
                None => None,
            },
            None => None,
        }
    } else if starts(d, "in ") {
        let rest = after_prefix(d, "in ");
        match parse_relative_days(&rest) {
            Some(n) => today.add_days(n),
            None => None,
        }
    } else {
        None
    }
}

fn parse_english(s: &[char], today: Date) -> (r: Option<(Date, Time)>)
    requires
        today.valid(),
    ensures
        r == english_spec(s@, today),
{
    let (date_str, time) = match split_point(s) {
        Some(k) => {
            assert(k < s@.len());
            let last = slice_of(s, k + 1, s.len());
            match time_of(&last) {
                Some(t) => (slice_of(s, 0, k), t),
                None => (slice_of(s, 0, s.len()), Time { secs: 0 }),
            }
        },
        None => (slice_of(s, 0, s.len()), Time { secs: 0 }),
    };
    proof {
        assert(s@.subrange(0, s@.len() as int) =~= s@);
    }
    match en_date(&date_str, today) {
        Some(d) => Some((d, time)),
        None => None,
    }
}

fn split_date_time(s: &[char], today: Date) -> (r: Option<(Date, Time)>)
    requires
        today.valid(),
    ensures
        r == natural_spec(s@, today),
{
    if let Some(result) = parse_japanese(s, today) {
        return Some(result);
    }
    let lower = to_lowercase(s);
    if let Some(result) = parse_english(&lower, today) {
        return Some(result);
    }
    match time_of(&lower) {
        Some(t) => Some((today, t)),
        None => None,
    }
}

/// Parses a date and time given the current instant.
pub fn parse_datetime_at(s: &str, now: Moment) -> (r: Option<DateTime>)
    ensures
        r == datetime_spec(s@, now),
        r matches Some(dt) ==> dt.valid(),
{
    let chars = chars_of(s);
    let t = trim_chars(&chars);
    if let Some(dt) = chrono_parse_ymd_hm(&t) {
        return Some(dt);
    }
    if let Some(d) = chrono_parse_ymd(&t) {
        return Some(d.at_midnight());
    }
    if !now.is_wf() {
        return None;
    }
    let local = now.naive_local();
    match split_date_time(&t, local.date) {
        Some((d, tm)) => Some(DateTime { date: d, time: tm }),
        None => None,
    }
}

/// Parses a date given the current date.
pub fn parse_date_at(s: &str, today: Date) -> (r: Option<Date>)
    requires
        today.valid(),
    ensures
        r == date_spec(s@, today),
        r matches Some(d) ==> d.valid(),
{
    let chars = chars_of(s);
    let t = trim_chars(&chars);
    if let Some(d) = chrono_parse_ymd(&t) {
        return Some(d);
    }
    match split_date_time(&t, today) {
        Some((d, _)) => Some(d),
        None => None,
    }
}

/// Parses an all-day date given the current date: a date with no clock time in it.
pub fn parse_all_day_date_at(s: &str, today: Date) -> (r: Option<Date>)
    requires
        today.valid(),
    ensures
        r == all_day_date_spec(s@, today),
        r matches Some(d) ==> d.valid(),
{
    let chars = chars_of(s);
    let t = trim_chars(&chars);
    if chrono_parse_ymd_hm(&t).is_some() {
        return None;
    }
    if let Some(d) = chrono_parse_ymd(&t) {
        return Some(d);
    }
    match split_date_time(&t, today) {
        Some((d, tm)) => if tm.secs == 0 {
            Some(d)
        } else {
            None
        },
        None => None,
    }
}

/// Parses a date/time string with natural language support, relative to the current time.
/// Supports: YYYY-MM-DD, YYYY-MM-DD HH:MM, and natural language (EN/JP).
pub fn parse_datetime(s: &str) -> (r: Option<DateTime>)
    ensures
        exists|now: Moment| r == datetime_spec(s@, now),
        r matches Some(dt) ==> dt.valid(),
{
    let now = clock_now();
    let r = parse_datetime_at(s, now);
    assert(r == datetime_spec(s@, now));
    r
}

/// What a date input denotes when read at the instant `now`; a clock outside the representable
/// calendar leaves only the `YYYY-MM-DD` form.
pub open spec fn date_at_clock(s: Seq<char>, now: Moment) -> Option<Date> {
    if now.wf() {
        date_spec(s, now.local().date)
    } else {
        parse_ymd(trim(s))
    }
}

/// What an all-day date input denotes when read at the instant `now`.
pub open spec fn all_day_date_at_clock(s: Seq<char>, now: Moment) -> Option<Date> {
    if now.wf() {
        all_day_date_spec(s, now.local().date)
    } else if parse_ymd_hm(trim(s)) is Some {
        None
    } else {
        parse_ymd(trim(s))
    }
}

/// Parses a date-only string with natural language support, relative to the current date.
pub fn parse_date(s: &str) -> (r: Option<Date>)
    ensures
        exists|now: Moment| r == date_at_clock(s@, now),
        r matches Some(d) ==> d.valid(),
{
    let now = clock_now();
    if !now.is_wf() {
        let chars = chars_of(s);
        let t = trim_chars(&chars);
        let r = chrono_parse_ymd(&t);
        assert(r == date_at_clock(s@, now));
        return r;
    }
    let today = now.date_naive();
    let r = parse_date_at(s, today);
    assert(r == date_at_clock(s@, now));
    r
}

/// Parses a date without a clock time, with natural language support, relative to the
/// current date.
pub fn parse_all_day_date(s: &str) -> (r: Option<Date>)
    ensures
        exists|now: Moment| r == all_day_date_at_clock(s@, now),
        r matches Some(d) ==> d.valid(),
{
    let now = clock_now();
    if !now.is_wf() {
        let chars = chars_of(s);
        let t = trim_chars(&chars);
        if chrono_parse_ymd_hm(&t).is_some() {
            assert(all_day_date_at_clock(s@, now) is None);
            return None;
        }
        let r = chrono_parse_ymd(&t);
        assert(r == all_day_date_at_clock(s@, now));
        return r;
    }
    let today = now.date_naive();
    let r = parse_all_day_date_at(s, today);
    assert(r == all_day_date_at_clock(s@, now));
    r
}

} // verus!
