use crate::error::Error;
use rand::Rng;
use vstd::prelude::*;

verus! {

/// Whether a token issued at `tokendate` is expired at time `now`, for a
/// validity window of `window` milliseconds.  A token dated in the future
/// (clock skew) counts as expired.
pub open spec fn expired(window: int, tokendate: int, now: int) -> bool {
    now < tokendate || now - tokendate > window
}

/// Decides `expired` executably.
pub fn token_expired_at(token_expiration_ms: i64, tokendate: i64, now: i64) -> (r: bool)
    ensures
        r == expired(token_expiration_ms as int, tokendate as int, now as int),
{
    now < tokendate || (now as i128) - (tokendate as i128) > (token_expiration_ms as i128)
}

/// Relies on std::time::SystemTime::now: milliseconds since the Unix
/// epoch, or `Err` when the clock reads before the epoch.
#[verifier::external_body]
pub fn nowms() -> (r: Result<u128, Error>)
{
    match std::time::SystemTime::now().duration_since(std::time::SystemTime::UNIX_EPOCH) {
        Ok(d) => Ok(d.as_millis()),
        Err(_) => Err(Error::Time),
    }
}

/// Milliseconds since the Unix epoch as an `i64`, or `Err` when the clock
/// is unreadable or the value does not fit.
pub fn now() -> (r: Result<i64, Error>)
    ensures
        r matches Ok(v) ==> v >= 0,
{
    match nowms() {
        Ok(ms) => {
            if ms <= i64::MAX as u128 {
                Ok(ms as i64)
            } else {
                Err(Error::Time)
            }
        }
        Err(e) => Err(e),
    }
}

/// The current time rounded down to whole seconds, still expressed in
/// milliseconds since the Unix epoch.
pub fn naiow() -> (r: Result<i64, Error>)
    ensures
        r matches Ok(v) ==> v >= 0 && v % 1000 == 0,
{
    match now() {
        Ok(ms) => {
            let s: u64 = (ms as u64) / 1000;
            proof {
                assert(s * 1000 <= ms as u64 && (s * 1000) % 1000 == 0) by (nonlinear_arith)
                    requires
                        s == (ms as u64) / 1000,
                        ms >= 0,
                ;
            }
            Ok((s * 1000) as i64)
        }
        Err(e) => Err(e),
    }
}

/// Expiry against the real clock: expired when the clock cannot be read,
/// otherwise `expired` at the current time.  The time-independent rule is
/// `token_expired_at`, which callers with a timestamp in hand should use.
pub fn is_token_expired(token_expiration_ms: i64, tokendate: i64) -> (r: bool)
{
    match now() {
        Ok(n) => token_expired_at(token_expiration_ms, tokendate, n),
        Err(_) => true,
    }
}

/// Relies on rand's thread-local generator: one uniformly drawn `char`,
/// handed back as a one-character string.  Nothing is promised of which
/// character was drawn.
#[verifier::external_body]
fn random_char_string() -> (r: String)
    ensures
        r@.len() == 1,
{
    let mut rng = rand::thread_rng();
    let c: char = rng.gen();
    c.to_string()
}

/// A string of `len` randomly drawn characters.
pub fn get_rand_string(len: usize) -> (r: String)
    ensures
        r@.len() == len,
{
    let mut rstr = String::new();
    let mut i: usize = 0;
    while i < len
        invariant
            i <= len,
            rstr@.len() == i,
        decreases len - i,
    {
        let c = random_char_string();
        rstr.append(c.as_str());
        i = i + 1;
    }
    rstr
}

/// A fresh random per-user salt.
pub fn salt_string() -> (r: String)
    ensures
        r@.len() == 10,
{
    get_rand_string(10)
}

/// Relies on uuid::Uuid::new_v4 and the hyphenated text form of its
/// Display implementation: 36 characters.  Nothing is promised of which
/// value was drawn.
#[verifier::external_body]
pub fn new_uuid_string() -> (r: String)
    ensures
        r@.len() == 36,
{
    uuid::Uuid::new_v4().to_string()
}

/// What str::to_lowercase returns; it depends on the characters alone.
pub uninterp spec fn lower_of(s: Seq<char>) -> Seq<char>;

/// Relies on str::to_lowercase: the lowercase equivalent of `s`.  The
/// fold is idempotent: lowercasing an already-lowercase string returns
/// it unchanged, so the result is a fixed point of `lower_of`.
#[verifier::external_body]
pub fn lowercase(s: &str) -> (r: String)
    ensures
        r@ == lower_of(s@),
        lower_of(r@) == r@,
{
    s.to_lowercase()
}

/// What str::trim returns; it depends on the characters alone.
pub uninterp spec fn trim_of(s: Seq<char>) -> Seq<char>;

/// Relies on str::trim: `s` without leading and trailing whitespace.
#[verifier::external_body]
fn trim(s: &str) -> (r: &str)
    ensures
        r@ == trim_of(s@),
{
    s.trim()
}

/// Whether `s` holds nothing but whitespace.
pub fn is_blank(s: &str) -> (r: bool)
    ensures
        r == (trim_of(s@).len() == 0),
{
    trim(s).is_empty()
}

/// What the timestamp formatter returns for a given number of seconds
/// since the Unix epoch: a year-month-day hour:minute:second text, or
/// `None` for a value out of the calendar's range.
pub uninterp spec fn time_text_of(seconds: int) -> Option<Seq<char>>;

/// Relies on the time crate (OffsetDateTime::from_unix_timestamp and its
/// formatting machinery): the text form of `seconds`, which depends on the
/// argument alone.
#[verifier::external_body]
pub fn show_time(seconds: i64) -> (r: Option<String>)
    ensures
        r.deep_view() == time_text_of(seconds as int),
{
    let dt: time::OffsetDateTime = time::OffsetDateTime::from_unix_timestamp(seconds).ok()?;
    let f = time::format_description::parse("[year]-[month]-[day]T[hour]:[minute]:[second]");
    match f.map(|dtf| dt.format(&dtf)) {
        Ok(Ok(dtf)) => Some(dtf),
        _ => None,
    }
}

} // verus!
