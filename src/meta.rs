//! Instrument metadata as the library sees it: the text of the metadata answer,
//! the keys under which instruments are known, and what they mean for a run.
use vstd::prelude::*;

use crate::calendar::{UtcDay, EPOCH_DAY, LAST_DAY, MS_PER_DAY};
use crate::text::{push_upper, upper};

verus! {

/// The payload inside a callback envelope: six characters of callback name and
/// parenthesis before it, one closing character after it.
pub open spec fn envelope_payload(s: Seq<char>) -> Option<Seq<char>> {
    if s.len() >= 7 {
        Some(s.subrange(6, s.len() - 1))
    } else {
        None
    }
}

/// Strips the callback envelope off the metadata answer; `None` where the text
/// is too short to hold one.
pub fn strip_envelope(s: &str) -> (r: Option<String>)
    ensures
        r is Some <==> envelope_payload(s@) is Some,
        r is Some ==> r->0@ == envelope_payload(s@)->0,
{
    let n = s.unicode_len();
    if n < 7 {
        None
    } else {
        Some(String::from_str(s.substring_char(6, n - 1)))
    }
}

/// An instrument name with every `/` taken out (`EUR/USD` is known as `EURUSD`).
pub open spec fn without_slash(s: Seq<char>) -> Seq<char>
    decreases s.len(),
{
    if s.len() == 0 {
        Seq::empty()
    } else if s.last() == '/' {
        without_slash(s.drop_last())
    } else {
        without_slash(s.drop_last()).push(s.last())
    }
}

/// The key under which an instrument of the metadata is known.
pub fn instrument_key(name: &str) -> (r: String)
    ensures
        r@ == without_slash(name@),
{
    let n = name.unicode_len();
    let mut r = String::new();
    let mut i: usize = 0;
    while i < n
        invariant
            n == name@.len(),
            i <= n,
            r@ == without_slash(name@.subrange(0, i as int)),
        decreases n - i,
    {
        let c = name.get_char(i);
        assert(name@.subrange(0, i + 1).drop_last() =~= name@.subrange(0, i as int));
        if c != '/' {
            r.push(c);
        }
        i = i + 1;
    }
    assert(name@.subrange(0, n as int) =~= name@);
    r
}

pub open spec fn is_known(known: Seq<String>, symbol: Seq<char>) -> bool {
    exists|i: int| 0 <= i < known.len() && known[i]@ == upper(symbol)
}

/// The requested symbols, in order, whose upper case is none of the known keys.
pub open spec fn unknown_symbols(requested: Seq<String>, known: Seq<String>) -> Seq<String>
    decreases requested.len(),
{
    if requested.len() == 0 {
        Seq::empty()
    } else {
        let rest = unknown_symbols(requested.drop_last(), known);
        if is_known(known, requested.last()@) {
            rest
        } else {
            rest.push(requested.last())
        }
    }
}

fn contains_key(known: &Vec<String>, key: &String) -> (r: bool)
    ensures
        r <==> exists|i: int| 0 <= i < known@.len() && known@[i]@ == key@,
{
    let mut i: usize = 0;
    while i < known.len()
        invariant
            i <= known@.len(),
            forall|k: int| 0 <= k < i ==> known@[k]@ != key@,
        decreases known@.len() - i,
    {
        if known[i] == *key {
            return true;
        }
        i = i + 1;
    }
    false
}

/// The requested symbols that the metadata does not know; a run stops before
/// any fetch unless there are none.
pub fn missing_symbols(requested: &Vec<String>, known: &Vec<String>) -> (r: Vec<String>)
    ensures
        r@ == unknown_symbols(requested@, known@),
{
    let mut r: Vec<String> = Vec::new();
    let mut i: usize = 0;
    while i < requested.len()
        invariant
            i <= requested@.len(),
            r@ == unknown_symbols(requested@.subrange(0, i as int), known@),
        decreases requested@.len() - i,
    {
        assert(requested@.subrange(0, i + 1).drop_last() =~= requested@.subrange(0, i as int));
        let mut key = String::new();
        push_upper(&mut key, requested[i].as_str());
        if !contains_key(known, &key) {
            r.push(requested[i].clone());
        }
        i = i + 1;
    }
    assert(requested@.subrange(0, requested@.len() as int) =~= requested@);
    r
}

/// The day number of the day that holds the instant `ms` milliseconds after
/// the Unix epoch.
pub open spec fn day_of_millis(ms: int) -> int {
    ms / MS_PER_DAY as int + EPOCH_DAY
}

/// The first day to fetch for a run asked to start on `start`, for an
/// instrument whose history starts at `history_start_ms`: the later of the two.
/// `None` where that is the history's start and it lies after 9999-12-31.
pub fn start_within_history(start: UtcDay, history_start_ms: i64) -> (r: Option<UtcDay>)
    ensures
        day_of_millis(history_start_ms as int) <= start.number() ==> r == Some(start),
        start.number() < day_of_millis(history_start_ms as int) <= LAST_DAY ==> r is Some
            && r->0.number() == day_of_millis(history_start_ms as int),
        day_of_millis(history_start_ms as int) > LAST_DAY ==> r is None,
{
    let ms = history_start_ms;
    let q: i64 = if ms >= 0 {
        ms / MS_PER_DAY
    } else {
        -((-(ms + 1)) / MS_PER_DAY) - 1
    };
    proof {
        let m = ms as int;
        let d = MS_PER_DAY as int;
        if ms < 0 {
            let p = -(m + 1);
            assert(0 <= p - d * (p / d) < d) by (nonlinear_arith)
                requires
                    p >= 0,
                    d > 0,
            ;
            assert(d * q <= m < d * q + d) by (nonlinear_arith)
                requires
                    q == -(p / d) - 1,
                    p == -(m + 1),
                    0 <= p - d * (p / d) < d,
            ;
            vstd::arithmetic::div_mod::lemma_fundamental_div_mod_converse(m, d, q as int, m - d * q);
        }
    }
    assert(q == (ms as int) / (MS_PER_DAY as int));
    let day = q + EPOCH_DAY;
    let n = start.day_number();
    if day <= n as i64 {
        Some(start)
    } else if day <= LAST_DAY as i64 {
        UtcDay::from_number(day as i32)
    } else {
        None
    }
}

} // verus!
