use vstd::prelude::*;

use crate::number::{parse_unsigned, parse_unsigned_chars};
use crate::text::{digit_char, str_chars};

verus! {

/// When a calendar event starts and ends, as instants on one clock (for
/// instance seconds since the epoch); `None` where the event does not say.
#[derive(Clone, Copy, Debug, PartialEq, Eq, Structural)]
pub struct EventTimes {
    pub start: Option<i64>,
    pub end: Option<i64>,
}

/// The start of an event; one that gives none is taken to start now.
pub open spec fn start_or(e: EventTimes, now: i64) -> int {
    match e.start {
        Some(s) => s as int,
        None => now as int,
    }
}

/// The end of an event; one that gives none is taken to end now.
pub open spec fn end_or(e: EventTimes, now: i64) -> int {
    match e.end {
        Some(t) => t as int,
        None => now as int,
    }
}

/// The event is going on at `now`.
pub open spec fn is_active(e: EventTimes, now: i64) -> bool {
    start_or(e, now) <= now < end_or(e, now)
}

/// The event has not started at `now`.
pub open spec fn is_upcoming(e: EventTimes, now: i64) -> bool {
    start_or(e, now) > now
}

/// -1, 0 or 1 as `x` is below, equal to or above `y`.
pub open spec fn sign_between(x: int, y: int) -> int {
    if x < y {
        -1
    } else if x == y {
        0
    } else {
        1
    }
}

/// How relevant `a` is next to `b` at `now` (-1: more relevant, 1: less):
/// active events come first, the one ending soonest first; then upcoming
/// ones, the one starting soonest first; then past ones, the one that ended
/// last first.
pub open spec fn relevance(a: EventTimes, b: EventTimes, now: i64) -> int {
    let aa = is_active(a, now);
    let ba = is_active(b, now);
    if aa && ba {
        sign_between(end_or(a, now), end_or(b, now))
    } else if aa {
        -1
    } else if ba {
        1
    } else {
        let au = is_upcoming(a, now);
        let bu = is_upcoming(b, now);
        if au && bu {
            sign_between(start_or(a, now), start_or(b, now))
        } else if au {
            -1
        } else if bu {
            1
        } else {
            sign_between(end_or(b, now), end_or(a, now))
        }
    }
}

/// Every event is as relevant as itself.
pub proof fn lemma_relevance_reflexive(a: EventTimes, now: i64)
    ensures
        relevance(a, a, now) == 0,
{
}

/// Swapping the two events flips the comparison.
pub proof fn lemma_relevance_antisymmetric(a: EventTimes, b: EventTimes, now: i64)
    ensures
        relevance(a, b, now) == -relevance(b, a, now),
{
}

/// The comparison is transitive, so it orders events totally (up to ties),
/// as sorting by it requires.
pub proof fn lemma_relevance_transitive(a: EventTimes, b: EventTimes, c: EventTimes, now: i64)
    requires
        relevance(a, b, now) <= 0,
        relevance(b, c, now) <= 0,
    ensures
        relevance(a, c, now) <= 0,
        relevance(a, b, now) < 0 || relevance(b, c, now) < 0 ==> relevance(a, c, now) < 0,
{
}

fn start_or_now(e: &EventTimes, now: i64) -> (r: i64)
    ensures
        r == start_or(*e, now),
{
    match e.start {
        Some(s) => s,
        None => now,
    }
}

fn end_or_now(e: &EventTimes, now: i64) -> (r: i64)
    ensures
        r == end_or(*e, now),
{
    match e.end {
        Some(t) => t,
        None => now,
    }
}

fn sign_of(x: i64, y: i64) -> (r: i8)
    ensures
        r == sign_between(x as int, y as int),
{
    if x < y {
        -1
    } else if x == y {
        0
    } else {
        1
    }
}

/// Compares two events by relevance at `now`.
pub fn compare_events(a: &EventTimes, b: &EventTimes, now: i64) -> (r: i8)
    ensures
        r == relevance(*a, *b, now),
{
    let a_start = start_or_now(a, now);
    let b_start = start_or_now(b, now);
    let a_end = end_or_now(a, now);
    let b_end = end_or_now(b, now);
    let a_active = now >= a_start && now < a_end;
    let b_active = now >= b_start && now < b_end;
    let a_upcoming = a_start > now;
    let b_upcoming = b_start > now;
    if a_active && b_active {
        sign_of(a_end, b_end)
    } else if a_active {
        -1
    } else if b_active {
        1
    } else if a_upcoming && b_upcoming {
        sign_of(a_start, b_start)
    } else if a_upcoming {
        -1
    } else if b_upcoming {
        1
    } else {
        sign_of(b_end, a_end)
    }
}

/// Index of the event shown: the one that comes first when the events are
/// sorted stably by relevance, that is the first of the most relevant ones.
pub fn most_relevant(events: &[EventTimes], now: i64) -> (r: Option<usize>)
    ensures
        events@.len() == 0 <==> r is None,
        r matches Some(i) ==> {
            &&& i < events@.len()
            &&& forall|j: int| 0 <= j < events@.len() ==> relevance(events@[i as int], #[trigger] events@[j], now) <= 0
            &&& forall|j: int| 0 <= j < i ==> relevance(events@[i as int], #[trigger] events@[j], now) < 0
        },
{
    if events.len() == 0 {
        return None;
    }
    let mut best: usize = 0;
    let mut k: usize = 1;
    while k < events.len()
        invariant
            0 <= best < k <= events@.len(),
            forall|j: int| 0 <= j < k ==> relevance(events@[best as int], #[trigger] events@[j], now) <= 0,
            forall|j: int| 0 <= j < best ==> relevance(events@[best as int], #[trigger] events@[j], now) < 0,
        decreases events.len() - k,
    {
        if compare_events(&events[k], &events[best], now) < 0 {
            proof {
                let nb = events@[k as int];
                let ob = events@[best as int];
                assert forall|j: int| 0 <= j < k implies relevance(nb, #[trigger] events@[j], now) < 0 by {
                    lemma_relevance_transitive(nb, ob, events@[j], now);
                }
                lemma_relevance_reflexive(nb, now);
            }
            best = k;
        } else {
            proof {
                lemma_relevance_antisymmetric(events@[k as int], events@[best as int], now);
            }
        }
        k += 1;
    }
    Some(best)
}

/// `s` without one leading `#`.
pub open spec fn strip_hash(s: Seq<char>) -> Seq<char> {
    if s.len() > 0 && s[0] == '#' {
        s.drop_first()
    } else {
        s
    }
}

/// The colour of a calendar given as hexadecimal digits after an optional
/// `#`; 0 when they do not form a `u32`.
pub fn hex_to_u32(hex: &str) -> (r: u32)
    ensures
        r == match parse_unsigned(strip_hash(hex@), 16, u32::MAX as nat) {
            Some(v) => v,
            None => 0,
        },
{
    let v = str_chars(hex);
    let n = v.len();
    let lo: usize = if n > 0 && v[0] == '#' {
        1
    } else {
        0
    };
    assert(v@.subrange(lo as int, n as int) == strip_hash(hex@));
    match parse_unsigned_chars(&v, lo, n, 16, 0xffff_ffff) {
        Some(x) => x as u32,
        None => 0,
    }
}

/// The milliseconds a calendar refresh waits after the last one.
pub const REFRESH_INTERVAL_MS: u64 = 50_000;

/// Whether the calendar is asked again, `now_ms` being the time now and
/// `last_call_ms` that of the last request (both in milliseconds of a clock
/// that only runs forward): on the first call, and once 50 seconds have
/// passed. A clock that reads earlier than the last request counts as no
/// time passed.
pub fn should_refresh(last_call_ms: Option<u64>, now_ms: u64) -> (r: bool)
    ensures
        r == match last_call_ms {
            None => true,
            Some(last) => now_ms >= last && now_ms - last >= REFRESH_INTERVAL_MS,
        },
{
    match last_call_ms {
        None => true,
        Some(last) => now_ms >= last && now_ms - last >= REFRESH_INTERVAL_MS,
    }
}

/// Whether `t` reads as a time of day `HH:MM`: two digits of an hour below
/// 24, a colon, two digits of a minute below 60.
pub open spec fn clock_form(t: Seq<char>) -> bool {
    &&& t.len() == 5
    &&& t[2] == ':'
    &&& '0' <= t[0] <= '2' && '0' <= t[1] <= '9' && '0' <= t[3] <= '5' && '0' <= t[4] <= '9'
    &&& (t[0] as int - '0' as int) * 10 + (t[1] as int - '0' as int) < 24
}

/// `n` (below 100) in two decimal digits.
pub open spec fn two_digits(n: int) -> Seq<char> {
    seq![digit_char((n / 10) as nat), digit_char((n % 10) as nat)]
}

/// The time of day, `HH:MM`, of the instant `secs` seconds after a
/// midnight.
pub open spec fn clock_of(secs: int) -> Seq<char> {
    let day = secs % 86400;
    two_digits(day / 3600) + seq![':'] + two_digits((day % 3600) / 60)
}

/// A time of day given by `clock_of` reads as `HH:MM`.
pub proof fn lemma_clock_of_form(secs: int)
    ensures
        clock_form(clock_of(secs)),
{
    let day = secs % 86400;
    let h = day / 3600;
    let m = (day % 3600) / 60;
    assert(0 <= day < 86400);
    assert(0 <= h < 24) by (nonlinear_arith)
        requires
            0 <= day < 86400,
            h == day / 3600,
    ;
    assert(0 <= m < 60) by (nonlinear_arith)
        requires
            0 <= day,
            m == (day % 3600) / 60,
    ;
    let t = clock_of(secs);
    assert(t.len() == 5);
    assert(t[0] == digit_char((h / 10) as nat));
    assert(t[1] == digit_char((h % 10) as nat));
    assert(t[3] == digit_char((m / 10) as nat));
    assert(t[4] == digit_char((m % 10) as nat));
    assert((h / 10) * 10 + h % 10 == h);
}

/// The last second of the year 9999, the end of the range of instants for
/// which a time of day is always given.
pub const LAST_LABELLED_SECOND: i64 = 253402300799;

/// The local time of day of the instant `secs` seconds after the epoch, as
/// chrono's `DateTime::from_timestamp`, `with_timezone(&Local)` and
/// `format("%H:%M")` give it. Claimed: `from_timestamp` gives `None` only
/// for seconds out of its range, which holds every instant from the epoch to
/// the end of the year 9999, so those always give a time; a time given is
/// the `HH:MM` of the instant shifted by the local offset, which chrono keeps
/// within a day either way. Which offset applies depends on the machine's
/// time zone, so it is left unsaid; so is that chrono's time-zone lookup
/// ends in an `expect` when the system's time-zone data gives no local time
/// type.
#[verifier::external_body]
fn local_clock(secs: i64) -> (r: Option<String>)
    ensures
        0 <= secs <= LAST_LABELLED_SECOND ==> r is Some,
        r matches Some(t) ==> exists|off: int|
            -86400 < off < 86400 && t@ == #[trigger] clock_of(secs + off),
{
    chrono::DateTime::from_timestamp(secs, 0)
        .map(|utc| utc.with_timezone(&chrono::Local).format("%H:%M").to_string())
}

/// The label of an event's start: its local time of day, `HH:MM`; none for
/// an event without a start. A start from the epoch to the end of the year
/// 9999 always gets a label.
pub fn start_label(e: &EventTimes) -> (r: Option<String>)
    ensures
        e.start is None ==> r is None,
        e.start matches Some(s) && 0 <= s <= LAST_LABELLED_SECOND ==> r is Some,
        r matches Some(t) ==> (e.start matches Some(s) && clock_form(t@) && exists|off: int|
            -86400 < off < 86400 && t@ == #[trigger] clock_of(s + off)),
{
    match e.start {
        Some(s) => {
            let r = local_clock(s);
            proof {
                if r is Some {
                    let t = r->0;
                    let off = choose|off: int| -86400 < off < 86400 && t@ == #[trigger] clock_of(s + off);
                    lemma_clock_of_form(s + off);
                }
            }
            r
        },
        None => None,
    }
}

} // verus!
