//! Per-hour resource locators: building them for a range of days, and reading
//! the descriptor back out of one.
use vstd::prelude::*;

use crate::calendar::{civil_of_day, UtcDay, LAST_DAY};
use crate::text::{
    all_digits, decimal, digit_char, digit_value, is_digit, lemma_decimal, lemma_digit_char,
    numeral_value, pad2, push_decimal, push_pad2, push_upper, upper,
};

verus! {

/// What identifies one hourly file: symbol, year, month (1-based), day of month
/// and hour.
pub struct Descriptor {
    pub symbol: Seq<char>,
    pub year: int,
    pub month: int,
    pub day: int,
    pub hour: int,
}

pub open spec fn fields_in_range(v: Descriptor) -> bool {
    &&& 1 <= v.year <= 9999
    &&& 1 <= v.month <= 12
    &&& 1 <= v.day <= 31
    &&& 0 <= v.hour < 24
}

/// A descriptor whose locator can be read back: a non-empty symbol without `/`.
pub open spec fn well_formed(v: Descriptor) -> bool {
    &&& v.symbol.len() > 0
    &&& !v.symbol.contains('/')
    &&& fields_in_range(v)
}

pub open spec fn host() -> Seq<char> {
    "http://datafeed.dukascopy.com/datafeed/"@
}

pub open spec fn ticks_suffix() -> Seq<char> {
    "h_ticks.bi5"@
}

/// `/MM/DD/HH` with a 0-based month, each field zero-padded to two digits.
pub open spec fn date_part(month0: int, day: int, hour: int) -> Seq<char> {
    seq![
        '/',
        digit_char(month0 / 10),
        digit_char(month0 % 10),
        '/',
        digit_char(day / 10),
        digit_char(day % 10),
        '/',
        digit_char(hour / 10),
        digit_char(hour % 10),
    ]
}

/// The locator of a descriptor:
/// `{host}{SYMBOL}/{year}/{month0:02}/{day:02}/{hour:02}h_ticks.bi5`.
pub open spec fn locator_text(v: Descriptor) -> Seq<char> {
    host() + v.symbol + seq!['/'] + decimal(v.year as nat) + date_part(v.month - 1, v.day, v.hour)
        + ticks_suffix()
}

/// The descriptor of hour `hour` of day number `day` for `symbol`, upper-cased.
pub open spec fn hour_descriptor(symbol: Seq<char>, day: int, hour: int) -> Descriptor {
    Descriptor {
        symbol: upper(symbol),
        year: civil_of_day(day).0,
        month: civil_of_day(day).1,
        day: civil_of_day(day).2,
        hour,
    }
}

/// The descriptor that a locator is the text of, if any.
pub open spec fn parse_locator(s: Seq<char>) -> Option<Descriptor> {
    if exists|v: Descriptor| well_formed(v) && locator_text(v) == s {
        Some(choose|v: Descriptor| well_formed(v) && locator_text(v) == s)
    } else {
        None
    }
}

/// The fields of one hourly file's descriptor.
#[derive(Debug)]
pub struct UrlInfo {
    pub symbol: String,
    pub year: i32,
    pub month: u32,
    pub day: u32,
    pub hour: u32,
}

impl View for UrlInfo {
    type V = Descriptor;

    open spec fn view(&self) -> Descriptor {
        Descriptor {
            symbol: self.symbol@,
            year: self.year as int,
            month: self.month as int,
            day: self.day as int,
            hour: self.hour as int,
        }
    }
}

/// Where each part of a locator stands.
proof fn lemma_layout(v: Descriptor)
    ensures
        fields_in_range(v) ==> ({
            let t = locator_text(v);
            let p = host().len() as int;
            let j = p + v.symbol.len();
            let y = decimal(v.year as nat);
            let k = j + 1 + y.len();
            &&& 1 <= y.len() <= 4
            &&& all_digits(y)
            &&& numeral_value(y) == v.year
            &&& t.len() == k + 9 + ticks_suffix().len()
            &&& t.subrange(p, j) == v.symbol
            &&& t[j] == '/'
            &&& t.subrange(j + 1, k) == y
            &&& t[k] == '/'
            &&& t[k + 3] == '/'
            &&& t[k + 6] == '/'
            &&& is_digit(t[k + 1]) && is_digit(t[k + 2])
            &&& is_digit(t[k + 4]) && is_digit(t[k + 5])
            &&& is_digit(t[k + 7]) && is_digit(t[k + 8])
            &&& digit_value(t[k + 1]) * 10 + digit_value(t[k + 2]) == v.month - 1
            &&& digit_value(t[k + 4]) * 10 + digit_value(t[k + 5]) == v.day
            &&& digit_value(t[k + 7]) * 10 + digit_value(t[k + 8]) == v.hour
        }),
{
    if !fields_in_range(v) {
        return;
    }
    let t = locator_text(v);
    let p = host().len() as int;
    let j = p + v.symbol.len();
    let y = decimal(v.year as nat);
    let k = j + 1 + y.len();
    lemma_decimal(v.year as nat);
    lemma_digit_char((v.month - 1) / 10);
    lemma_digit_char((v.month - 1) % 10);
    lemma_digit_char(v.day / 10);
    lemma_digit_char(v.day % 10);
    lemma_digit_char(v.hour / 10);
    lemma_digit_char(v.hour % 10);
    let dp = date_part(v.month - 1, v.day, v.hour);
    assert(t == host() + v.symbol + seq!['/'] + y + dp + ticks_suffix());
    assert(t.subrange(p, j) =~= v.symbol);
    assert(t.subrange(j + 1, k) =~= y);
    assert(t[k] == dp[0]);
    assert(t[k + 1] == dp[1]);
    assert(t[k + 2] == dp[2]);
    assert(t[k + 3] == dp[3]);
    assert(t[k + 4] == dp[4]);
    assert(t[k + 5] == dp[5]);
    assert(t[k + 6] == dp[6]);
    assert(t[k + 7] == dp[7]);
    assert(t[k + 8] == dp[8]);
}

/// Two well-formed descriptors with the same locator are the same descriptor.
pub proof fn lemma_locator_injective(a: Descriptor, b: Descriptor)
    requires
        well_formed(a),
        well_formed(b),
        locator_text(a) == locator_text(b),
    ensures
        a == b,
{
    let t = locator_text(a);
    let p = host().len() as int;
    lemma_layout(a);
    lemma_layout(b);
    let ja = p + a.symbol.len();
    let jb = p + b.symbol.len();
    if a.symbol.len() < b.symbol.len() {
        assert(t.subrange(p, jb)[a.symbol.len() as int] == t[ja]);
        assert(b.symbol.contains(t[ja]));
    }
    if b.symbol.len() < a.symbol.len() {
        assert(t.subrange(p, ja)[b.symbol.len() as int] == t[jb]);
        assert(a.symbol.contains(t[jb]));
    }
    assert(ja == jb);
    let ya = decimal(a.year as nat);
    let yb = decimal(b.year as nat);
    let ka = ja + 1 + ya.len();
    let kb = jb + 1 + yb.len();
    if ya.len() < yb.len() {
        assert(t.subrange(ja + 1, kb)[ya.len() as int] == t[ka]);
        assert(is_digit(yb[ya.len() as int]));
    }
    if yb.len() < ya.len() {
        assert(t.subrange(ja + 1, ka)[yb.len() as int] == t[kb]);
        assert(is_digit(ya[yb.len() as int]));
    }
    assert(ya == yb);
}

/// In a locator, the first `/` after the host ends the symbol.
proof fn lemma_symbol_end(t: Seq<char>, v: Descriptor, j: int)
    requires
        host().len() <= j <= t.len(),
        forall|i: int| host().len() <= i < j ==> t[i] != '/',
        j < t.len() ==> t[j] == '/',
    ensures
        well_formed(v) && locator_text(v) == t ==> j == host().len() + v.symbol.len(),
{
    if well_formed(v) && locator_text(v) == t {
        lemma_layout(v);
        let p = host().len() as int;
        let jv = p + v.symbol.len();
        if j < jv {
            assert(t.subrange(p, jv)[j - p] == t[j]);
            assert(v.symbol.contains(t[j]));
        }
    }
}

/// In a locator, the first `/` after the symbol's ends the year.
proof fn lemma_year_end(t: Seq<char>, v: Descriptor, j: int, k: int)
    requires
        j < k <= t.len(),
        forall|i: int| j < i < k ==> t[i] != '/',
        k < t.len() ==> t[k] == '/',
    ensures
        well_formed(v) && locator_text(v) == t && j == host().len() + v.symbol.len() ==> k == j
            + 1 + decimal(v.year as nat).len(),
{
    if well_formed(v) && locator_text(v) == t && j == host().len() + v.symbol.len() {
        lemma_layout(v);
        let y = decimal(v.year as nat);
        let kv = j + 1 + y.len();
        if k < kv {
            assert(t.subrange(j + 1, kv)[k - j - 1] == t[k]);
            assert(is_digit(y[k - j - 1]));
        }
    }
}

/// The position of the first `/` at or after `from`, or the length where
/// there is none.
fn find_slash(s: &str, from: usize) -> (r: usize)
    requires
        from <= s@.len(),
    ensures
        from <= r <= s@.len(),
        forall|i: int| from <= i < r ==> s@[i] != '/',
        r < s@.len() ==> s@[r as int] == '/',
{
    let n = s.unicode_len();
    let mut i = from;
    while i < n
        invariant
            n == s@.len(),
            from <= i <= n,
            forall|k: int| from <= k < i ==> s@[k] != '/',
        decreases n - i,
    {
        if s.get_char(i) == '/' {
            return i;
        }
        i = i + 1;
    }
    i
}

/// The value of the one to four digits `s[from..to]`, if they are all digits.
fn parse_numeral(s: &str, from: usize, to: usize) -> (r: Option<u32>)
    requires
        from < to <= s@.len(),
        to - from <= 4,
    ensures
        r is Some <==> all_digits(s@.subrange(from as int, to as int)),
        r is Some ==> r->0 == numeral_value(s@.subrange(from as int, to as int)),
        r is Some ==> r->0 < 10000,
{
    let mut acc: u32 = 0;
    let mut i = from;
    while i < to
        invariant
            from <= i <= to <= s@.len(),
            to - from <= 4,
            all_digits(s@.subrange(from as int, i as int)),
            acc == numeral_value(s@.subrange(from as int, i as int)),
            i - from == 0 ==> acc == 0,
            i - from == 1 ==> acc < 10,
            i - from == 2 ==> acc < 100,
            i - from == 3 ==> acc < 1000,
            i - from == 4 ==> acc < 10000,
        decreases to - i,
    {
        let c = s.get_char(i);
        if !('0' <= c && c <= '9') {
            assert(s@.subrange(from as int, to as int)[i - from] == c);
            return None;
        }
        let ghost prev = s@.subrange(from as int, i as int);
        acc = acc * 10 + (c as u32 - 48);
        i = i + 1;
        assert(s@.subrange(from as int, i as int).drop_last() =~= prev);
    }
    assert(s@.subrange(from as int, i as int) =~= s@.subrange(from as int, to as int));
    Some(acc)
}

/// The value of the two digits at `at`, if both are digits.
fn two_digits(s: &str, at: usize) -> (r: Option<u32>)
    requires
        at + 2 <= s@.len() <= usize::MAX,
    ensures
        r is Some <==> is_digit(s@[at as int]) && is_digit(s@[at + 1]),
        r is Some ==> r->0 == digit_value(s@[at as int]) * 10 + digit_value(s@[at + 1]),
{
    let a = s.get_char(at);
    let b = s.get_char(at + 1);
    if '0' <= a && a <= '9' && '0' <= b && b <= '9' {
        Some((a as u32 - 48) * 10 + (b as u32 - 48))
    } else {
        None
    }
}

/// The locator of a descriptor.
pub fn locator_string(info: &UrlInfo) -> (r: String)
    requires
        fields_in_range(info@),
    ensures
        r@ == locator_text(info@),
{
    let host_str = "http://datafeed.dukascopy.com/datafeed/";
    let suffix = "h_ticks.bi5";
    let mut s = String::from_str(host_str);
    s.append(info.symbol.as_str());
    s.push('/');
    push_decimal(&mut s, info.year as u32);
    s.push('/');
    push_pad2(&mut s, info.month - 1);
    s.push('/');
    push_pad2(&mut s, info.day);
    s.push('/');
    push_pad2(&mut s, info.hour);
    s.append(suffix);
    assert(s@ =~= locator_text(info@));
    s
}

/// Reads the descriptor back out of a locator; `None` where the text is not
/// the locator of a well-formed descriptor.
pub fn decode_url(url: &str) -> (r: Option<UrlInfo>)
    ensures
        r is Some ==> parse_locator(url@) == Some(r->0@),
        r is None ==> parse_locator(url@) is None,
{
    let ghost t = url@;
    let ghost is_loc = exists|v: Descriptor| well_formed(v) && locator_text(v) == t;
    let ghost v = choose|v: Descriptor| well_formed(v) && locator_text(v) == t;
    proof {
        lemma_layout(v);
    }
    assert(is_loc ==> well_formed(v) && locator_text(v) == t);
    let host_str = "http://datafeed.dukascopy.com/datafeed/";
    assert(host_str@ == host());
    let p = host_str.unicode_len();
    let n = url.unicode_len();
    if n < p {
        return None;
    }
    let j = find_slash(url, p);
    proof {
        lemma_symbol_end(t, v, j as int);
    }
    if j == p || j >= n {
        return None;
    }
    let k = find_slash(url, j + 1);
    proof {
        lemma_year_end(t, v, j as int, k as int);
    }
    if k == j + 1 || k - (j + 1) > 4 || k >= n || n - k < 9 {
        return None;
    }
    let year = match parse_numeral(url, j + 1, k) {
        Some(y) => y,
        None => return None,
    };
    let month0 = match two_digits(url, k + 1) {
        Some(m) => m,
        None => return None,
    };
    let day = match two_digits(url, k + 4) {
        Some(d) => d,
        None => return None,
    };
    let hour = match two_digits(url, k + 7) {
        Some(h) => h,
        None => return None,
    };
    if year < 1 || month0 >= 12 || day < 1 || day > 31 || hour >= 24 {
        return None;
    }
    let symbol = String::from_str(url.substring_char(p, j));
    let info = UrlInfo { symbol, year: year as i32, month: month0 + 1, day, hour };
    assert(is_loc ==> info@ =~= v);
    let text = locator_string(&info);
    let whole = String::from_str(url);
    if text == whole {
        assert forall|i: int| 0 <= i < info@.symbol.len() implies info@.symbol[i] != '/' by {
            assert(info@.symbol[i] == t[p + i]);
        }
        assert(well_formed(info@));
        let ghost w = choose|w: Descriptor| well_formed(w) && locator_text(w) == t;
        proof {
            lemma_locator_injective(w, info@);
        }
        Some(info)
    } else {
        None
    }
}

/// The locators of the 24 hours of one day, hour 0 first, with the symbol in
/// upper case.
pub fn build_day_urls(instrument: &str, dt: UtcDay) -> (r: Vec<String>)
    ensures
        r@.len() == 24,
        forall|h: int|
            0 <= h < 24 ==> #[trigger] r@[h]@ == locator_text(
                hour_descriptor(instrument@, dt.number(), h),
            ),
        forall|h: int| 0 <= h < 24 ==> fields_in_range(#[trigger] hour_descriptor(instrument@, dt.number(), h)),
{
    let mut symbol = String::new();
    push_upper(&mut symbol, instrument);
    let (year, month, day) = dt.ymd();
    let mut r: Vec<String> = Vec::new();
    let mut h: u32 = 0;
    while h < 24
        invariant
            h <= 24,
            r@.len() == h,
            symbol@ == upper(instrument@),
            (year as int, month as int, day as int) == civil_of_day(dt.number()),
            1 <= year <= 9999,
            1 <= month <= 12,
            1 <= day <= 31,
            forall|i: int|
                0 <= i < h ==> #[trigger] r@[i]@ == locator_text(
                    hour_descriptor(instrument@, dt.number(), i),
                ),
        decreases 24 - h,
    {
        let info = UrlInfo { symbol: symbol.clone(), year, month, day, hour: h };
        assert(info@ == hour_descriptor(instrument@, dt.number(), h as int));
        r.push(locator_string(&info));
        h = h + 1;
    }
    assert forall|i: int| 0 <= i < 24 implies fields_in_range(#[trigger] hour_descriptor(instrument@, dt.number(), i)) by {}
    r
}

/// The locators of every hour of the days from `start` up to, not including,
/// `end`: 24 per day, days ascending and hours ascending within a day.
pub fn build_urls(instrument: &str, start: UtcDay, end: UtcDay) -> (r: Vec<String>)
    ensures
        r@.len() == 24 * range_days(start.number(), end.number()),
        forall|i: int|
            0 <= i < r@.len() ==> #[trigger] r@[i]@ == locator_text(
                hour_descriptor(instrument@, start.number() + i / 24, i % 24),
            ),
        forall|i: int|
            0 <= i < r@.len() ==> fields_in_range(
                #[trigger] hour_descriptor(instrument@, start.number() + i / 24, i % 24),
            ),
{
    let first = start.day_number();
    let last = end.day_number();
    let mut urls: Vec<String> = Vec::new();
    let mut from = first;
    while from < last
        invariant
            first <= from,
            first < last ==> from <= last,
            first >= last ==> from == first,
            1 <= first,
            last <= LAST_DAY,
            first == start.number(),
            last == end.number(),
            urls@.len() == 24 * (from - first),
            forall|i: int|
                0 <= i < urls@.len() ==> #[trigger] urls@[i]@ == locator_text(
                    hour_descriptor(instrument@, first + i / 24, i % 24),
                ),
            forall|i: int|
                0 <= i < urls@.len() ==> fields_in_range(
                    #[trigger] hour_descriptor(instrument@, first + i / 24, i % 24),
                ),
        decreases last - from,
    {
        let day = UtcDay::from_number(from).unwrap();
        let v = build_day_urls(instrument, day);
        let ghost before = urls@;
        let mut h: usize = 0;
        while h < 24
            invariant
                h <= 24,
                v@.len() == 24,
                before.len() == 24 * (from - first),
                urls@.len() == before.len() + h,
                forall|i: int| 0 <= i < before.len() ==> urls@[i] == before[i],
                forall|i: int| 0 <= i < h ==> urls@[before.len() + i] == v@[i],
            decreases 24 - h,
        {
            urls.push(v[h].clone());
            h = h + 1;
        }
        assert forall|i: int| 0 <= i < urls@.len() implies #[trigger] urls@[i]@ == locator_text(
            hour_descriptor(instrument@, first + i / 24, i % 24),
        ) && fields_in_range(hour_descriptor(instrument@, first + i / 24, i % 24)) by {
            if i >= before.len() {
                let h2 = i - before.len();
                assert(urls@[before.len() + h2] == v@[h2]);
                assert(i / 24 == from - first && i % 24 == h2) by (nonlinear_arith)
                    requires
                        i == 24 * (from - first) + h2,
                        0 <= h2 < 24,
                ;
            } else {
                assert(urls@[i] == before[i]);
            }
        }
        from = from + 1;
    }
    assert(urls@.len() == 24 * range_days(first as int, last as int));
    urls
}

/// The locators of a range of days come in time order: position `i` names hour
/// `i % 24` of day `start + i / 24`, which is hour `24 * start + i` counted from
/// the start of day zero, so a later position always names a later hour.
pub proof fn lemma_range_in_time_order(start: int, i: int, j: int)
    requires
        0 <= i < j,
    ensures
        24 * (start + i / 24) + i % 24 == 24 * start + i,
        24 * (start + i / 24) + i % 24 < 24 * (start + j / 24) + j % 24,
        i / 24 < j / 24 || (i / 24 == j / 24 && i % 24 < j % 24),
{
    assert(24 * (i / 24) + i % 24 == i) by (nonlinear_arith);
    assert(24 * (j / 24) + j % 24 == j) by (nonlinear_arith);
    assert(i / 24 <= j / 24) by (nonlinear_arith)
        requires
            i < j,
    ;
}

/// Reading back the locator of any hour of a day built for a non-empty symbol
/// without `/` gives that hour's descriptor: the upper-cased symbol, the
/// day's year, month and day of month, and the hour. `fields_in_range` holds of
/// every descriptor that `build_day_urls` and `build_urls` produce.
pub proof fn lemma_day_round_trip(symbol: Seq<char>, day: int, hour: int)
    requires
        symbol.len() > 0,
        !symbol.contains('/'),
        fields_in_range(hour_descriptor(symbol, day, hour)),
    ensures
        parse_locator(locator_text(hour_descriptor(symbol, day, hour))) == Some(
            hour_descriptor(symbol, day, hour),
        ),
{
    let d = hour_descriptor(symbol, day, hour);
    if d.symbol.contains('/') {
        let i = choose|i: int| 0 <= i < d.symbol.len() && d.symbol[i] == '/';
        assert(symbol[i] == '/');
        assert(symbol.contains(symbol[i]));
    }
    assert(well_formed(d));
    let w = choose|w: Descriptor| well_formed(w) && locator_text(w) == locator_text(d);
    lemma_locator_injective(w, d);
}

/// The name of the file that holds one hour's ticks:
/// `{SYMBOL}_{year}_{month:02}_{day:02}_{hour:02}h_ticks.bi5`, month 1-based, so
/// that names of one symbol sort as their hours do.
pub open spec fn file_text(v: Descriptor) -> Seq<char> {
    v.symbol + seq!['_'] + decimal(v.year as nat) + seq!['_'] + pad2(v.month) + seq!['_'] + pad2(
        v.day,
    ) + seq!['_'] + pad2(v.hour) + ticks_suffix()
}

/// The name of the file that holds one hour's ticks.
pub fn file_name(info: &UrlInfo) -> (r: String)
    requires
        fields_in_range(info@),
    ensures
        r@ == file_text(info@),
{
    let mut s = String::from_str(info.symbol.as_str());
    s.push('_');
    push_decimal(&mut s, info.year as u32);
    s.push('_');
    push_pad2(&mut s, info.month);
    s.push('_');
    push_pad2(&mut s, info.day);
    s.push('_');
    push_pad2(&mut s, info.hour);
    s.append("h_ticks.bi5");
    assert(s@ =~= file_text(info@));
    s
}

/// The number of days from `start` up to, not including, `end`.
pub open spec fn range_days(start: int, end: int) -> int {
    if start < end {
        end - start
    } else {
        0
    }
}

} // verus!
