//! Which API errors are retried, after what delay, and for how long.

use crate::error::ApiError;
use crate::json::{json_parse, Json};
use crate::text::chars_of;
use vstd::prelude::*;
use vstd::string::*;

verus! {

/// How a request is retried. The delay of the exponential backoff is
/// computed by the caller, who owns the random jitter; this record holds
/// the bounds that the decision needs.
#[derive(Debug, Clone, Copy, PartialEq, Eq, Structural)]
pub struct RetryConfig {
    /// Number of retries after the first attempt (0 = no retries).
    pub max_retries: u32,
    /// Delay before the first retry, in milliseconds.
    pub initial_delay_ms: u64,
    /// Largest delay between two attempts, in milliseconds.
    pub max_delay_ms: u64,
}

impl Default for RetryConfig {
    fn default() -> (c: Self)
        ensures
            c.max_retries == 2,
            c.initial_delay_ms == 1000,
            c.max_delay_ms == 60_000,
    {
        RetryConfig { max_retries: 2, initial_delay_ms: 1000, max_delay_ms: 60_000 }
    }
}

/// True for the transient errors: rate limit, overload, server error,
/// network error and timeout.
pub open spec fn retryable(e: ApiError) -> bool {
    e is RateLimited || e is Overloaded || e is Server || e is Network || e is Timeout
}

/// Tells whether a request that failed with `error` should be sent again.
pub fn is_retryable(error: &ApiError) -> (r: bool)
    ensures
        r == retryable(*error),
{
    match error {
        ApiError::RateLimited { .. } => true,
        ApiError::Overloaded => true,
        ApiError::Server { .. } => true,
        ApiError::Network(_) => true,
        ApiError::Timeout => true,
        _ => false,
    }
}

/// The smaller of two delays.
pub open spec fn min_delay(a: u64, b: u64) -> u64 {
    if a <= b {
        a
    } else {
        b
    }
}

/// The delay before the next attempt: the server's `retry_after_ms` where
/// it gave one, else the jittered backoff `backoff_ms`; neither may pass
/// `max_delay_ms`.
pub open spec fn delay_for(max_delay_ms: u64, retry_after_ms: Option<u64>, backoff_ms: u64) -> u64 {
    match retry_after_ms {
        Some(server) => min_delay(server, max_delay_ms),
        None => min_delay(backoff_ms, max_delay_ms),
    }
}

/// Computes the delay in milliseconds before the next attempt.
pub fn calculate_delay(config: &RetryConfig, retry_after_ms: Option<u64>, backoff_ms: u64) -> (d:
    u64)
    ensures
        d == delay_for(config.max_delay_ms, retry_after_ms, backoff_ms),
        d <= config.max_delay_ms,
{
    let wanted: u64 = match retry_after_ms {
        Some(server) => server,
        None => backoff_ms,
    };
    if wanted <= config.max_delay_ms {
        wanted
    } else {
        config.max_delay_ms
    }
}

/// The value of a decimal digit; none for other characters.
pub open spec fn digit_value(c: char) -> Option<nat> {
    if c == '0' {
        Some(0)
    } else if c == '1' {
        Some(1)
    } else if c == '2' {
        Some(2)
    } else if c == '3' {
        Some(3)
    } else if c == '4' {
        Some(4)
    } else if c == '5' {
        Some(5)
    } else if c == '6' {
        Some(6)
    } else if c == '7' {
        Some(7)
    } else if c == '8' {
        Some(8)
    } else if c == '9' {
        Some(9)
    } else {
        None
    }
}

/// True when every character of `s` is a decimal digit.
pub open spec fn all_digits(s: Seq<char>) -> bool {
    forall|i: int| 0 <= i < s.len() ==> (#[trigger] digit_value(s[i])) is Some
}

/// The number that a run of digits stands for.
pub open spec fn digits_value(s: Seq<char>) -> nat
    decreases s.len(),
{
    if s.len() == 0 {
        0
    } else {
        digits_value(s.drop_last()) * 10 + match digit_value(s.last()) {
            Some(d) => d,
            None => 0,
        }
    }
}

/// The index of the first `.` in `s`, or its length.
pub open spec fn dot_index(s: Seq<char>, from: int) -> int
    decreases s.len() - from,
{
    if from < 0 || from >= s.len() {
        s.len() as int
    } else if s[from] == '.' {
        from
    } else {
        dot_index(s, from + 1)
    }
}

/// The first three digits after the decimal point, read as thousandths;
/// missing digits count as zero and further digits are dropped.
pub open spec fn millis_of_fraction(frac: Seq<char>) -> nat {
    let d0 = if frac.len() > 0 {
        digits_value(frac.subrange(0, 1))
    } else {
        0
    };
    let d1 = if frac.len() > 1 {
        digits_value(frac.subrange(1, 2))
    } else {
        0
    };
    let d2 = if frac.len() > 2 {
        digits_value(frac.subrange(2, 3))
    } else {
        0
    };
    d0 * 100 + d1 * 10 + d2
}

/// The delay that a `Retry-After` value asks for, in whole milliseconds.
/// The value is a number of seconds in decimal notation: digits, optionally
/// a point and more digits, with at least one digit in all. Fractions of a
/// millisecond are dropped; a delay that does not fit the type is the
/// largest one. Any other text asks for nothing.
pub open spec fn retry_after_millis(value: Seq<char>) -> Option<u64> {
    let dot = dot_index(value, 0);
    let whole = value.subrange(0, dot);
    let frac = if dot < value.len() {
        value.subrange(dot + 1, value.len() as int)
    } else {
        Seq::empty()
    };
    if whole.len() + frac.len() == 0 || !all_digits(whole) || !all_digits(frac) {
        None
    } else {
        let ms = digits_value(whole) * 1000 + millis_of_fraction(frac);
        if ms > u64::MAX {
            Some(u64::MAX)
        } else {
            Some(ms as u64)
        }
    }
}

/// The value of the digit `c`.
fn digit_of_char(c: char) -> (r: Option<u64>)
    ensures
        match r {
            Some(d) => digit_value(c) == Some(d as nat) && d <= 9,
            None => digit_value(c) is None,
        },
{
    if c == '0' {
        Some(0)
    } else if c == '1' {
        Some(1)
    } else if c == '2' {
        Some(2)
    } else if c == '3' {
        Some(3)
    } else if c == '4' {
        Some(4)
    } else if c == '5' {
        Some(5)
    } else if c == '6' {
        Some(6)
    } else if c == '7' {
        Some(7)
    } else if c == '8' {
        Some(8)
    } else if c == '9' {
        Some(9)
    } else {
        None
    }
}

/// Reads a run of digits. Gives none where a character is no digit, the
/// value where it fits the type, and the largest value otherwise.
fn read_digits(chars: &Vec<char>, from: usize, to: usize) -> (r: Option<(u64, bool)>)
    requires
        from <= to <= chars@.len(),
    ensures
        match r {
            Some((v, exact)) => all_digits(chars@.subrange(from as int, to as int)) && if exact {
                v == digits_value(chars@.subrange(from as int, to as int))
            } else {
                digits_value(chars@.subrange(from as int, to as int)) > u64::MAX
            },
            None => !all_digits(chars@.subrange(from as int, to as int)),
        },
{
    let ghost run = chars@.subrange(from as int, to as int);
    let mut acc: u64 = 0;
    let mut exact = true;
    let mut i: usize = from;
    assert(run.subrange(0, 0) =~= Seq::<char>::empty());
    while i < to
        invariant
            from <= i <= to,
            to <= chars@.len(),
            run == chars@.subrange(from as int, to as int),
            all_digits(run.subrange(0, i - from)),
            exact ==> acc == digits_value(run.subrange(0, i - from)),
            !exact ==> digits_value(run.subrange(0, i - from)) > u64::MAX,
        decreases to - i,
    {
        let ghost before = run.subrange(0, i - from);
        let ghost after = run.subrange(0, i - from + 1);
        assert(after.drop_last() =~= before);
        assert(after.last() == chars@[i as int]);
        match digit_of_char(chars[i]) {
            None => {
                assert(digit_value(run[i - from]) is None);
                return None;
            },
            Some(d) => {
                assert forall|k: int| 0 <= k < after.len() implies (#[trigger] digit_value(
                    after[k],
                )) is Some by {
                    if k < before.len() {
                        assert(after[k] == before[k]);
                    }
                }
                if exact {
                    if acc > (u64::MAX - d) / 10 {
                        exact = false;
                    } else {
                        acc = acc * 10 + d;
                    }
                }
            },
        }
        i += 1;
    }
    assert(run.subrange(0, to - from) =~= run);
    Some((acc, exact))
}

/// Reads the delay that a `Retry-After` value asks for, in milliseconds.
pub fn parse_retry_after(value: &str) -> (r: Option<u64>)
    ensures
        r == retry_after_millis(value@),
{
    let chars = chars_of(value);
    let n: usize = chars.len();
    let mut dot: usize = 0;
    while dot < n && chars[dot] != '.'
        invariant
            dot <= n,
            n == chars@.len(),
            dot_index(chars@, dot as int) == dot_index(chars@, 0),
        decreases n - dot,
    {
        dot += 1;
    }
    let frac_from: usize = if dot < n {
        dot + 1
    } else {
        n
    };
    let ghost frac = chars@.subrange(frac_from as int, n as int);
    if dot + (n - frac_from) == 0 {
        return None;
    }
    let whole_value = match read_digits(&chars, 0, dot) {
        None => {
            return None;
        },
        Some(v) => v,
    };
    let frac_end: usize = if n - frac_from > 3 {
        frac_from + 3
    } else {
        n
    };
    if read_digits(&chars, frac_from, n).is_none() {
        return None;
    }
    let mut millis: u64 = 0;
    let mut scale: u64 = 100;
    let mut k: usize = frac_from;
    proof {
        assert(all_digits(frac));
    }
    while k < frac_end
        invariant
            frac_from <= k <= frac_end,
            frac_end <= n,
            frac_end - frac_from <= 3,
            n == chars@.len(),
            frac == chars@.subrange(frac_from as int, n as int),
            all_digits(frac),
            k == frac_from ==> scale == 100 && millis == 0,
            k == frac_from + 1 ==> scale == 10 && millis == digits_value(frac.subrange(0, 1))
                * 100,
            k == frac_from + 2 ==> scale == 1 && millis == digits_value(frac.subrange(0, 1))
                * 100 + digits_value(frac.subrange(1, 2)) * 10,
            k == frac_from + 3 ==> millis == digits_value(frac.subrange(0, 1)) * 100
                + digits_value(frac.subrange(1, 2)) * 10 + digits_value(frac.subrange(2, 3)),
            millis <= 999,
        decreases frac_end - k,
    {
        let ghost j = k - frac_from;
        let ghost one = frac.subrange(j, j + 1);
        assert(one.drop_last() =~= Seq::<char>::empty());
        assert(one.last() == chars@[k as int]);
        assert(digit_value(frac[j]) is Some);
        assert(digits_value(one) == digit_value(chars@[k as int])->0) by {
            assert(digits_value(one.drop_last()) == 0);
        }
        let d: u64 = match digit_of_char(chars[k]) {
            Some(d) => d,
            None => 0,
        };
        millis = millis + d * scale;
        scale = scale / 10;
        k += 1;
    }
    assert(millis == millis_of_fraction(frac));
    let (w, exact) = whole_value;
    if !exact || w > (u64::MAX - millis) / 1000 {
        Some(u64::MAX)
    } else {
        Some(w * 1000 + millis)
    }
}

/// The message that the body of an error response carries: the text at
/// `error.message` where the body is a JSON object that has one, else the
/// body itself.
pub open spec fn error_message(body: Seq<char>) -> Seq<char> {
    match json_parse(body) {
        Some(j) => match j.field("error"@) {
            Some(e) => match e.text_field("message"@) {
                Some(m) => m,
                None => body,
            },
            None => body,
        },
        None => body,
    }
}

/// True when `e` is the error that a response with status `status`, body
/// message `message` and retry delay `retry_after` stands for.
pub open spec fn classified(
    e: ApiError,
    status: u16,
    message: Seq<char>,
    retry_after: Option<u64>,
) -> bool {
    if status == 401 {
        e matches ApiError::Auth { message: m } && m@ == message
    } else if status == 400 {
        e matches ApiError::BadRequest { message: m } && m@ == message
    } else if status == 429 {
        e == (ApiError::RateLimited { retry_after_ms: retry_after })
    } else if status == 529 {
        e == ApiError::Overloaded
    } else {
        e matches ApiError::Server { status: s, message: m } && s == status && m@ == message
    }
}

/// Reads the message out of the body of an error response.
pub fn extract_error_message(body: &str) -> (m: String)
    ensures
        m@ == error_message(body@),
{
    match Json::parse(body) {
        Some(j) => match j.get("error") {
            Some(e) => match e.get_str("message") {
                Some(m) => m.to_owned(),
                None => body.to_owned(),
            },
            None => body.to_owned(),
        },
        None => body.to_owned(),
    }
}

/// Turns a response that is no success into the error it stands for.
pub fn classify_error(status: u16, body: &str, retry_after: Option<u64>) -> (e: ApiError)
    ensures
        classified(e, status, error_message(body@), retry_after),
{
    let message = extract_error_message(body);
    if status == 401 {
        ApiError::Auth { message }
    } else if status == 400 {
        ApiError::BadRequest { message }
    } else if status == 429 {
        ApiError::RateLimited { retry_after_ms: retry_after }
    } else if status == 529 {
        ApiError::Overloaded
    } else {
        ApiError::Server { status, message }
    }
}

/// How one attempt to send the request ended.
#[derive(Debug, Clone)]
pub enum SendOutcome {
    /// The server answered with a success status.
    Success,
    /// The server answered with another status.
    Status { status: u16, body: String, retry_after_ms: Option<u64> },
    /// The transport gave up waiting.
    TimedOut,
    /// The transport failed otherwise.
    Failed(String),
}

/// What follows an attempt.
#[derive(Debug, Clone)]
pub enum RetryDecision {
    /// The response stream is there.
    Proceed,
    /// Wait `delay_ms` milliseconds, then send again.
    RetryAfter { delay_ms: u64 },
    /// Give up with this error.
    GiveUp(ApiError),
}

/// True when `e` is the error that `outcome` stands for. A success stands
/// for none.
pub open spec fn outcome_error(outcome: SendOutcome, e: ApiError) -> bool {
    match outcome {
        SendOutcome::Success => false,
        SendOutcome::Status { status, body, retry_after_ms } => classified(
            e,
            status,
            error_message(body@),
            retry_after_ms,
        ),
        SendOutcome::TimedOut => e == ApiError::Timeout,
        SendOutcome::Failed(m) => e matches ApiError::Network(t) && t@ == m@,
    }
}

/// True when an attempt that ended in `outcome` is followed by another
/// one, `sent` attempts having been made so far.
pub open spec fn retries(config: RetryConfig, sent: int, outcome: SendOutcome) -> bool {
    sent <= config.max_retries && match outcome {
        SendOutcome::Success => false,
        SendOutcome::Status { status, .. } => status != 401 && status != 400,
        SendOutcome::TimedOut => true,
        SendOutcome::Failed(_) => true,
    }
}

/// The delay hint that `outcome` carries.
pub open spec fn outcome_retry_after(outcome: SendOutcome) -> Option<u64> {
    match outcome {
        SendOutcome::Status { retry_after_ms, .. } => retry_after_ms,
        _ => None,
    }
}

/// The course of one request through its attempts.
#[derive(Debug, Clone)]
pub struct RetryState {
    config: RetryConfig,
    sent: u64,
}

impl RetryState {
    /// The number of attempts recorded so far.
    pub closed spec fn attempts(&self) -> int {
        self.sent as int
    }

    /// The configuration that the request runs under.
    pub closed spec fn config(&self) -> RetryConfig {
        self.config
    }

    /// The count of attempts never passes `max_retries + 1`.
    pub open spec fn wf(&self) -> bool {
        0 <= self.attempts() <= self.config().max_retries + 1
    }

    /// True while another attempt may be sent.
    pub open spec fn may_send(&self) -> bool {
        self.attempts() <= self.config().max_retries
    }

    /// The state before the first attempt.
    pub fn new(config: RetryConfig) -> (s: Self)
        ensures
            s.wf(),
            s.may_send(),
            s.attempts() == 0,
            s.config() == config,
    {
        RetryState { config, sent: 0 }
    }

    /// The number of attempts recorded so far.
    pub fn attempts_made(&self) -> (n: u64)
        ensures
            n == self.attempts(),
    {
        self.sent
    }

    /// Tells whether another attempt may be sent.
    pub fn can_send(&self) -> (b: bool)
        ensures
            b == self.may_send(),
    {
        self.sent <= self.config.max_retries as u64
    }

    /// Records how an attempt ended and decides what follows. A success
    /// proceeds. A terminal error, or any error of the last permitted
    /// attempt, is given up with. Every other error is retried after the
    /// delay that `calculate_delay` gives for the server's hint and the
    /// caller's backoff `backoff_ms`.
    pub fn record(&mut self, outcome: SendOutcome, backoff_ms: u64) -> (d: RetryDecision)
        requires
            old(self).wf(),
            old(self).may_send(),
        ensures
            final(self).wf(),
            final(self).config() == old(self).config(),
            final(self).attempts() == old(self).attempts() + 1,
            outcome is Success <==> d is Proceed,
            d is RetryAfter <==> retries(old(self).config(), final(self).attempts(), outcome),
            d matches RetryDecision::RetryAfter { delay_ms } ==> final(self).may_send()
                && delay_ms == delay_for(
                old(self).config().max_delay_ms,
                outcome_retry_after(outcome),
                backoff_ms,
            ),
            d matches RetryDecision::GiveUp(e) ==> outcome_error(outcome, e),
    {
        self.sent = self.sent + 1;
        let last = self.sent > self.config.max_retries as u64;
        match outcome {
            SendOutcome::Success => RetryDecision::Proceed,
            SendOutcome::Status { status, body, retry_after_ms } => {
                let err = classify_error(status, body.as_str(), retry_after_ms);
                if !is_retryable(&err) || last {
                    RetryDecision::GiveUp(err)
                } else {
                    RetryDecision::RetryAfter {
                        delay_ms: calculate_delay(&self.config, retry_after_ms, backoff_ms),
                    }
                }
            },
            SendOutcome::TimedOut => {
                if last {
                    RetryDecision::GiveUp(ApiError::Timeout)
                } else {
                    RetryDecision::RetryAfter {
                        delay_ms: calculate_delay(&self.config, None, backoff_ms),
                    }
                }
            },
            SendOutcome::Failed(m) => {
                if last {
                    RetryDecision::GiveUp(ApiError::Network(m))
                } else {
                    RetryDecision::RetryAfter {
                        delay_ms: calculate_delay(&self.config, None, backoff_ms),
                    }
                }
            },
        }
    }
}

} // verus!
