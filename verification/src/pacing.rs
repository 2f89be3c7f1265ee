//! When a request may start and when it is sent again. Times are counted in
//! nanoseconds.

use vstd::arithmetic::power2::*;
use vstd::prelude::*;
use vstd::string::*;

use crate::digits::{decimal_of, is_digit, law_numbers_are_read_back, lemma_decimal, number_of};
use crate::settings::{whole_seconds, whole_seconds_of, Settings, SettingsModel};
use crate::text::{law_only_white_space_is_trimmed, trim, trimmed};

verus! {

/// The longest time that a clock of seconds and nanoseconds can measure.
pub const LONGEST: u128 = 18446744073709551615999999999;

/// How many nanoseconds a second has.
pub const SECOND: u128 = 1000000000;

/// How long a request waits for its turn: until `min_interval` has passed
/// since the last one started.
pub open spec fn turn_delay(last_start: Option<nat>, now: nat, min_interval: nat) -> nat {
    match last_start {
        None => 0,
        Some(previous) => {
            let elapsed = if now >= previous {
                (now - previous) as nat
            } else {
                0
            };
            if elapsed < min_interval {
                (min_interval - elapsed) as nat
            } else {
                0
            }
        },
    }
}

/// How long a request that is ready `now` waits for its turn.
pub fn wait_for_upstream_turn(last_start: Option<u128>, now: u128, min_interval: u128) -> (r: u128)
    ensures
        r == turn_delay(
            match last_start {
                Some(t) => Some(t as nat),
                None => None,
            },
            now as nat,
            min_interval as nat,
        ),
{
    match last_start {
        None => 0,
        Some(previous) => {
            let elapsed: u128 = if now >= previous {
                now - previous
            } else {
                0
            };
            if elapsed < min_interval {
                min_interval - elapsed
            } else {
                0
            }
        },
    }
}

/// Requests keep their distance: one that waits as long as it is told to, and
/// starts then or later, starts at least `min_interval` after the last one.
pub proof fn law_starts_keep_their_distance(
    previous: nat,
    now: nat,
    min_interval: nat,
    start: nat,
)
    requires
        previous <= now,
        start >= now + turn_delay(Some(previous), now, min_interval),
    ensures
        start >= previous + min_interval,
{
}

/// No request waits longer than `min_interval`, and none that comes late
/// enough waits at all.
pub proof fn law_turn_delay_is_bounded(last_start: Option<nat>, now: nat, min_interval: nat)
    ensures
        turn_delay(last_start, now, min_interval) <= min_interval,
        last_start matches Some(previous) && now >= previous + min_interval ==> turn_delay(
            last_start,
            now,
            min_interval,
        ) == 0,
{
}

/// The smaller of two numbers.
pub open spec fn at_most(n: nat, bound: nat) -> nat {
    if n < bound {
        n
    } else {
        bound
    }
}

/// The larger of two numbers.
pub open spec fn at_least(n: nat, bound: nat) -> nat {
    if n > bound {
        n
    } else {
        bound
    }
}

/// Up to this many nanoseconds, about thirteen days, doubling in floating point is
/// exact.
pub const EXACT: u128 = 1125899906842624;

/// How often the first wait is doubled before an attempt, of which the first is
/// number zero: thirty times at most.
pub open spec fn doublings_of(attempt: nat) -> nat {
    at_most(attempt, 30)
}

/// How often the first wait is doubled before an attempt.
pub fn doublings(attempt: u32) -> (r: u32)
    ensures
        r == doublings_of(attempt as nat),
{
    if attempt < 30 {
        attempt
    } else {
        30
    }
}

/// The wait after a refusal: it doubles with each attempt, and never exceeds
/// `longest`. `read` is what doubling in floating point gives; it counts where
/// that may be inexact and is not cut off.
pub open spec fn backoff(base: nat, longest: nat, attempt: nat, read: nat) -> nat {
    let product = base * pow2(doublings_of(attempt));
    if product <= EXACT || longest <= EXACT {
        at_most(product, longest)
    } else {
        at_most(read, longest)
    }
}

fn doubled(base: u128, bound: u128, times: u32) -> (r: u128)
    requires
        times <= 30,
    ensures
        r == at_most(base as nat * pow2(times as nat), bound as nat),
{
    if base > bound {
        proof {
            lemma_pow2_pos(times as nat);
            assert(base * pow2(times as nat) >= base) by (nonlinear_arith)
                requires
                    pow2(times as nat) >= 1,
            ;
        }
        return bound;
    }
    let mut value: u128 = base;
    let mut i: u32 = 0;
    proof {
        lemma2_to64();
    }
    while i < times
        invariant
            i <= times <= 30,
            value == base * pow2(i as nat),
            value <= bound,
        decreases times - i,
    {
        proof {
            lemma_pow2_unfold((i + 1) as nat);
            assert(base * pow2((i + 1) as nat) == 2 * value) by (nonlinear_arith)
                requires
                    value == base * pow2(i as nat),
                    pow2((i + 1) as nat) == 2 * pow2(i as nat),
            ;
        }
        if value > bound - value {
            proof {
                lemma_doubling_grows(base as nat, (i + 1) as nat, times as nat);
            }
            return bound;
        }
        value = value + value;
        i = i + 1;
    }
    value
}

fn backoff_delay(base: u128, longest: u128, attempt: u32, read: u128) -> (r: u128)
    ensures
        r == backoff(base as nat, longest as nat, attempt as nat, read as nat),
{
    let times = doublings(attempt);
    if longest <= EXACT {
        return doubled(base, longest, times);
    }
    let product = doubled(base, EXACT + 1, times);
    if product <= EXACT {
        product
    } else if read < longest {
        read
    } else {
        longest
    }
}

proof fn lemma_doubling_grows(base: nat, few: nat, many: nat)
    requires
        few <= many,
    ensures
        base * pow2(few) <= base * pow2(many),
{
    if few < many {
        lemma_pow2_strictly_increases(few, many);
    }
    assert(base * pow2(few) <= base * pow2(many)) by (nonlinear_arith)
        requires
            pow2(few) <= pow2(many),
    ;
}

/// The part of `longest` that `nanos` is of a second, to the nearest nanosecond.
/// `read` is what multiplying in floating point gives; it counts where the exact
/// product lies so close to the middle of two nanoseconds that this may give the
/// other one.
pub open spec fn jitter_of(longest: nat, nanos: nat, read: nat) -> nat {
    let product = longest * nanos;
    let whole = product / 1000000000;
    let rest = product % 1000000000;
    let from_middle = if rest > 500000000 {
        (rest - 500000000) as nat
    } else {
        (500000000 - rest) as nat
    };
    if from_middle * EXACT <= product {
        at_most(read, longest)
    } else if rest > 500000000 {
        whole + 1
    } else {
        whole
    }
}

proof fn lemma_jitter_is_bounded(longest: nat, nanos: nat, read: nat)
    requires
        nanos < 1000000000,
    ensures
        jitter_of(longest, nanos, read) <= longest,
{
    assert(longest * nanos <= longest * 999999999) by (nonlinear_arith)
        requires
            nanos <= 999999999,
    ;
}

/// Picks a wait up to `longest` by the part of the current second that has
/// passed. `read` is what multiplying the two in floating point gives.
pub fn random_jitter(longest: u128, nanos: u32, read: u128) -> (r: u128)
    requires
        longest <= LONGEST,
        nanos < 1000000000,
    ensures
        r == jitter_of(longest as nat, nanos as nat, read as nat),
        r <= longest,
{
    proof {
        lemma_jitter_is_bounded(longest as nat, nanos as nat, read as nat);
        assert(longest * nanos <= LONGEST * 1000000000) by (nonlinear_arith)
            requires
                longest <= LONGEST,
                nanos <= 1000000000,
        ;
    }
    let product: u128 = longest * nanos as u128;
    let whole: u128 = product / SECOND;
    let rest: u128 = product % SECOND;
    let from_middle: u128 = if rest > 500000000 {
        rest - 500000000
    } else {
        500000000 - rest
    };
    if from_middle * EXACT <= product {
        if read < longest {
            read
        } else {
            longest
        }
    } else if rest > 500000000 {
        whole + 1
    } else {
        whole
    }
}

/// What an upstream that refused a request leaves to find out before it is sent
/// again.
#[derive(Clone, Copy, Debug, PartialEq, Eq, Structural)]
pub struct Pause {
    /// How long the upstream asks to wait.
    pub retry_after: Option<u128>,
    /// How much of the current second has passed, in nanoseconds.
    pub nanos: u32,
    /// What doubling the first wait gives in floating point.
    pub backoff_read: u128,
    /// What the jitter is in floating point.
    pub jitter_read: u128,
}

impl Pause {
    /// How long the upstream asks to wait, if it does.
    pub open spec fn asked(self) -> nat {
        match self.retry_after {
            Some(t) => t as nat,
            None => 0,
        }
    }

    /// Whether its times are such as a clock can measure.
    pub open spec fn is_timely(self) -> bool {
        self.nanos < 1000000000 && self.asked() <= LONGEST
    }
}

/// How long the proxy waits before it sends a refused request again: the
/// backoff, or what the server asked for if that is longer, and the jitter.
pub open spec fn retry_delay_of(settings: SettingsModel, attempt: nat, pause: Pause) -> nat {
    let waited = backoff(
        settings.backoff_base,
        settings.backoff_max,
        attempt,
        pause.backoff_read as nat,
    );
    at_least(waited, pause.asked()) + jitter_of(
        settings.backoff_jitter,
        pause.nanos as nat,
        pause.jitter_read as nat,
    )
}

/// How long the proxy waits before it sends a refused request again.
pub fn retry_delay(settings: &Settings, attempt: u32, pause: Pause) -> (r: u128)
    requires
        settings.backoff_max <= LONGEST,
        settings.backoff_jitter <= LONGEST,
        pause.is_timely(),
    ensures
        r == retry_delay_of(settings@, attempt as nat, pause),
{
    let capped = backoff_delay(
        settings.backoff_base,
        settings.backoff_max,
        attempt,
        pause.backoff_read,
    );
    let server_delay: u128 = match pause.retry_after {
        Some(t) => t,
        None => 0,
    };
    let longer: u128 = if capped > server_delay {
        capped
    } else {
        server_delay
    };
    longer + random_jitter(settings.backoff_jitter, pause.nanos, pause.jitter_read)
}

/// A wait that the server asks for is kept, and the longer of that and the
/// backoff is what counts.
pub proof fn law_retry_after_is_kept(settings: SettingsModel, attempt: nat, pause: Pause)
    requires
        pause.is_timely(),
    ensures
        retry_delay_of(settings, attempt, pause) >= pause.asked(),
        retry_delay_of(settings, attempt, pause) >= backoff(
            settings.backoff_base,
            settings.backoff_max,
            attempt,
            pause.backoff_read as nat,
        ),
        retry_delay_of(settings, attempt, pause) <= at_least(settings.backoff_max, pause.asked())
            + settings.backoff_jitter,
{
    lemma_jitter_is_bounded(
        settings.backoff_jitter,
        pause.nanos as nat,
        pause.jitter_read as nat,
    );
}

/// The backoff starts at its base, doubles from one attempt to the next until
/// it reaches its bound, and never shrinks, as long as the bound is one up to
/// which doubling is exact; above that it is still kept to the bound.
pub proof fn law_backoff_doubles(
    base: nat,
    longest: nat,
    attempt: nat,
    read: nat,
    next_read: nat,
)
    requires
        base <= longest,
    ensures
        longest <= EXACT ==> {
            &&& backoff(base, longest, 0, read) == base
            &&& attempt < 30 ==> backoff(base, longest, attempt + 1, next_read) == at_most(
                2 * backoff(base, longest, attempt, read),
                longest,
            )
            &&& backoff(base, longest, attempt, read) <= backoff(
                base,
                longest,
                attempt + 1,
                next_read,
            )
        },
        backoff(base, longest, attempt, read) <= longest,
{
    lemma2_to64();
    assert(base * pow2(0) == base) by (nonlinear_arith)
        requires
            pow2(0) == 1,
    ;
    if attempt < 30 {
        lemma_pow2_unfold(attempt + 1);
        assert(base * pow2(attempt + 1) == 2 * (base * pow2(attempt))) by (nonlinear_arith)
            requires
                pow2(attempt + 1) == 2 * pow2(attempt),
        ;
    }
}

/// The time that an HTTP date stands for, in seconds since 1970, if the text
/// is such a date.
pub uninterp spec fn http_date_seconds(text: Seq<char>) -> Option<u64>;

/// Calls `httpdate::parse_http_date`. What it returns depends on the text
/// alone. Every date that it accepts lies in 1970 or later and falls on a
/// whole second.
#[verifier::external_body]
fn http_date(text: &str) -> (r: Option<u64>)
    ensures
        r == http_date_seconds(text@),
{
    let at = httpdate::parse_http_date(text).ok()?;
    Some(at.duration_since(std::time::UNIX_EPOCH).ok()?.as_secs())
}

/// How long a server asks to wait: what `number` says, if its answer is a
/// number of seconds, or else the time from `now` to the date that it gives.
pub open spec fn retry_after_of(number: Option<u128>, date: Option<u64>, now: nat) -> Option<nat> {
    match number {
        Some(n) => Some(n as nat),
        None => match date {
            None => None,
            Some(seconds) => if seconds * SECOND > now {
                Some((seconds * SECOND - now) as nat)
            } else {
                Some(0)
            },
        },
    }
}

/// Reads how long a server asks to wait, given what its answer says as a number
/// of seconds and as a date.
pub fn retry_after(number: Option<u128>, date: Option<u64>, now: u128) -> (r: Option<u128>)
    ensures
        match r {
            Some(t) => retry_after_of(number, date, now as nat) == Some(t as nat),
            None => retry_after_of(number, date, now as nat) is None,
        },
{
    match number {
        Some(n) => Some(n),
        None => match date {
            None => None,
            Some(seconds) => {
                let at: u128 = seconds as u128 * SECOND;
                if at > now {
                    Some(at - now)
                } else {
                    Some(0)
                }
            },
        },
    }
}

/// What a server's answer says as a number of seconds, in nanoseconds, given how
/// it reads where it is no whole number.
pub open spec fn seconds_said(value: Seq<char>, read: Option<u128>) -> Option<u128> {
    match whole_seconds_of(trimmed(value)) {
        Some(n) => Some(n),
        None => read,
    }
}

/// Reads how long a server asks to wait. `read` is what the trimmed `value` says
/// as a number of seconds with a fraction, in nanoseconds; it counts where that
/// is no whole number. `now` is the time since 1970.
pub fn parse_retry_after(value: &str, read: Option<u128>, now: u128) -> (r: Option<u128>)
    ensures
        match r {
            Some(t) => retry_after_of(
                seconds_said(value@, read),
                http_date_seconds(value@),
                now as nat,
            ) == Some(t as nat),
            None => retry_after_of(
                seconds_said(value@, read),
                http_date_seconds(value@),
                now as nat,
            ) is None,
        },
{
    let number = match whole_seconds(trim(value)) {
        Some(n) => Some(n),
        None => read,
    };
    match number {
        Some(n) => Some(n),
        None => retry_after(None, http_date(value), now),
    }
}

/// A request starts as soon as it may: at once where none came before it or
/// enough time has passed, and otherwise exactly `min_interval` after the last
/// one. Where the clock went back, it waits the whole interval.
pub proof fn law_turns_come_as_soon_as_they_may(previous: nat, now: nat, min_interval: nat)
    ensures
        turn_delay(None, now, min_interval) == 0,
        previous <= now <= previous + min_interval ==> now + turn_delay(
            Some(previous),
            now,
            min_interval,
        ) == previous + min_interval,
        previous + min_interval <= now ==> turn_delay(Some(previous), now, min_interval) == 0,
        now < previous ==> turn_delay(Some(previous), now, min_interval) == min_interval,
{
}

/// A request that is ready later starts no sooner, and never later by more than
/// it is late.
pub proof fn law_turns_keep_their_order(previous: nat, now: nat, later: nat, min_interval: nat)
    requires
        previous <= now <= later,
    ensures
        ({
            let start = now + turn_delay(Some(previous), now, min_interval);
            let late_start = later + turn_delay(Some(previous), later, min_interval);
            start <= late_start <= start + (later - now)
        }),
{
}

/// Before the jitter the wait is the longer of the backoff and what the server
/// asked for, neither less nor more, and the jitter adds no more than its range.
pub proof fn law_wait_is_the_longer_of_two(settings: SettingsModel, attempt: nat, pause: Pause)
    requires
        pause.is_timely(),
    ensures
        ({
            let waited = backoff(
                settings.backoff_base,
                settings.backoff_max,
                attempt,
                pause.backoff_read as nat,
            );
            let delay = retry_delay_of(settings, attempt, pause);
            let calm = retry_delay_of(
                SettingsModel { backoff_jitter: 0, ..settings },
                attempt,
                pause,
            );
            &&& pause.asked() >= waited ==> calm == pause.asked()
            &&& pause.asked() <= waited ==> calm == waited
            &&& pause.asked() >= waited ==> pause.asked() <= delay <= pause.asked()
                + settings.backoff_jitter
            &&& pause.asked() <= waited ==> waited <= delay <= waited + settings.backoff_jitter
            &&& delay - calm == jitter_of(
                settings.backoff_jitter,
                pause.nanos as nat,
                pause.jitter_read as nat,
            )
        }),
{
    lemma_jitter_is_bounded(
        settings.backoff_jitter,
        pause.nanos as nat,
        pause.jitter_read as nat,
    );
    assert(0 * (pause.nanos as nat) == 0) by (nonlinear_arith);
}

/// What counts as asked for is what the server said, and nothing where it said
/// nothing.
pub proof fn law_what_is_asked_is_what_was_said(pause: Pause, time: u128)
    ensures
        (Pause { retry_after: Some(time), ..pause }).asked() == time,
        (Pause { retry_after: None, ..pause }).asked() == 0,
{
}

/// The backoff is the base, doubled once for each attempt before this one but no
/// more than thirty times, or its bound if that is shorter. Where the product
/// and the bound both exceed 2^50 nanoseconds, what was read stands for the
/// product.
pub proof fn law_backoff_is_the_doubled_base(
    base: nat,
    longest: nat,
    attempt: nat,
    read: nat,
)
    requires
        attempt <= 30,
    ensures
        ({
            let product = base * pow2(attempt);
            let wait = backoff(base, longest, attempt, read);
            &&& product <= longest && product <= 1125899906842624 ==> wait == product
            &&& product >= longest && longest <= 1125899906842624 ==> wait == longest
            &&& product > 1125899906842624 && longest > 1125899906842624 && read <= longest
                ==> wait == read
            &&& product > 1125899906842624 && longest > 1125899906842624 && read >= longest
                ==> wait == longest
        }),
        forall|more: nat|
            more >= 30 ==> #[trigger] backoff(base, longest, more, read) == backoff(
                base,
                longest,
                30,
                read,
            ),
        attempt == 0 ==> pow2(attempt) == 1,
        attempt > 0 ==> pow2(attempt) == 2 * pow2((attempt - 1) as nat),
{
    lemma2_to64();
    if attempt > 0 {
        lemma_pow2_unfold(attempt);
    }
}

/// The base is doubled once for each attempt before this one, thirty times at
/// most.
pub proof fn law_doublings_count_attempts(attempt: nat)
    ensures
        attempt <= 30 ==> doublings_of(attempt) == attempt,
        attempt >= 30 ==> doublings_of(attempt) == 30,
{
}

/// The jitter is to its range as the part of the second that has passed is to the
/// second, to the nearest nanosecond. Only where the exact value lies so close to
/// the middle of two nanoseconds that floating point may take the other one does
/// the reading count, and then no more than the range.
pub proof fn law_jitter_is_a_share_of_its_range(longest: nat, nanos: nat, read: nat)
    ensures
        ({
            let share = longest * nanos;
            let middle = share / 1000000000 * 1000000000 + 500000000;
            let distance = if share <= middle {
                middle - share
            } else {
                share - middle
            };
            let jitter = jitter_of(longest, nanos, read);
            &&& distance * 1125899906842624 > share ==> -500000000 < 1000000000 * jitter - share
                < 500000000
            &&& distance * 1125899906842624 <= share && read <= longest ==> jitter == read
            &&& distance * 1125899906842624 <= share && read >= longest ==> jitter == longest
        }),
{
}

/// A wait until a date ends at that date, or at once where the date is past. A
/// number of seconds counts before a date, and without either nothing is asked.
pub proof fn law_dates_are_waited_for(number: u128, date: Option<u64>, seconds: u64, now: nat)
    ensures
        retry_after_of(Some(number), date, now) == Some(number as nat),
        retry_after_of(None, None, now) is None,
        retry_after_of(None, Some(seconds), now) matches Some(wait) && {
            &&& now <= seconds * 1000000000 ==> now + wait == seconds * 1000000000
            &&& now >= seconds * 1000000000 ==> wait == 0
        },
{
}

/// A server that answers with a whole number, with or without blanks around it, asks
/// for that many seconds, whatever that reads as otherwise; what is no whole number
/// counts as what it reads as.
pub proof fn law_seconds_are_read_as_said(
    before: Seq<char>,
    n: nat,
    after: Seq<char>,
    text: Seq<char>,
    read: Option<u128>,
)
    requires
        n <= 1000000000000000,
        crate::ini::is_blank(before),
        crate::ini::is_blank(after),
    ensures
        seconds_said(before + decimal_of(n) + after, read) == Some((n * 1000000000) as u128),
        number_of(trimmed(text), 1000000000000000) is Err ==> seconds_said(text, read) == read,
{
    lemma_decimal(n);
    law_numbers_are_read_back(n, 1000000000000000);
    let digits = decimal_of(n);
    assert(is_digit(digits[0]) && is_digit(digits.last()));
    law_only_white_space_is_trimmed(before, digits, after);
}

} // verus!
