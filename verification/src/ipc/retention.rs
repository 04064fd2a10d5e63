//! The configured retention policy, parsed once.

use vstd::prelude::*;
use crate::text::{
    all_digits, decimal, digit_char, digit_value, digits, integer, integer_i64, number, parse_i64,
    trim, trim_end, trim_start, trimmed, white_space,
};

verus! {

/// Largest accepted retention window: 100 years. Past this a value is a config error, not a
/// policy. `0` already means "keep forever".
pub const MAX_RETENTION_DAYS: i64 = 36_500;

/// Retention when the config row is absent.
pub const DEFAULT_RETENTION_DAYS: u32 = 30;

/// Why a configured value was refused.
#[derive(Debug, Clone, Copy, PartialEq, Eq, Structural)]
pub enum Rejected {
    NotANumber,
    Negative,
    AboveMax,
}

/// What the `retention_days` setting means.
#[derive(Debug, Clone, Copy, PartialEq, Eq, Structural)]
pub enum Retention {
    Days { value: u32 },
    Disabled,
    Invalid,
}

impl Default for Retention {
    fn default() -> (r: Self)
        ensures
            r == (Retention::Days { value: DEFAULT_RETENTION_DAYS }),
    {
        Retention::Days { value: DEFAULT_RETENTION_DAYS }
    }
}

impl Retention {
    /// What a setting means, or why it is refused.
    pub open spec fn classified(raw: Seq<char>) -> Result<Retention, Rejected> {
        match integer_i64(trimmed(raw)) {
            None => Err(Rejected::NotANumber),
            Some(n) => if n == 0 {
                Ok(Retention::Disabled)
            } else if n < 0 {
                Err(Rejected::Negative)
            } else if n > MAX_RETENTION_DAYS {
                Err(Rejected::AboveMax)
            } else {
                Ok(Retention::Days { value: n as u32 })
            },
        }
    }

    /// What a setting is read as.
    pub open spec fn parsed(raw: Seq<char>) -> Retention {
        match Retention::classified(raw) {
            Ok(retention) => retention,
            Err(_) => Retention::Invalid,
        }
    }

    /// The only place these rules are stated; `parse` and `from_stored` delegate here.
    pub fn classify(raw: &str) -> (r: Result<Self, Rejected>)
        ensures
            r == Retention::classified(raw@),
    {
        match parse_i64(trim(raw).as_str()) {
            None => Err(Rejected::NotANumber),
            Some(n) => if n == 0 {
                Ok(Retention::Disabled)
            } else if n < 0 {
                Err(Rejected::Negative)
            } else if n > MAX_RETENTION_DAYS {
                Err(Rejected::AboveMax)
            } else {
                Ok(Retention::Days { value: n as u32 })
            },
        }
    }

    /// The read path. A refused value is `Retention::Invalid`; the reason is dropped because
    /// nothing downstream of the wire reads it.
    pub fn parse(raw: &str) -> (r: Self)
        ensures
            r == Retention::parsed(raw@),
    {
        match Retention::classify(raw) {
            Ok(retention) => retention,
            Err(_) => Retention::Invalid,
        }
    }

    /// The stored-value path. An absent row is the default, not a fault.
    pub fn from_stored(raw: Option<&str>) -> (r: Self)
        ensures
            raw is Some ==> r == Retention::parsed(raw->0@),
            raw is None ==> r == (Retention::Days { value: DEFAULT_RETENTION_DAYS }),
    {
        match raw {
            Some(v) => Retention::parse(v),
            None => Retention::default(),
        }
    }
}

/// A window that is accepted is one that a cleanup runs with.
pub proof fn an_accepted_window_can_be_kept(raw: Seq<char>)
    ensures
        Retention::classified(raw) matches Ok(Retention::Days { value }) ==> 0 < value
            <= crate::storage::retention::MAX_RETENTION_DAYS,
{
}

proof fn lemma_digits_read_back(n: nat)
    ensures
        digits(n, 10).len() > 0,
        all_digits(digits(n, 10)),
        number(digits(n, 10)) == n,
    decreases n,
{
    if n < 10 {
        let s = digits(n, 10);
        assert(s =~= seq![digit_char(n as int)]);
        assert(s.drop_last() =~= Seq::<char>::empty());
        assert(number(s.drop_last()) == 0);
    } else {
        lemma_digits_read_back(n / 10);
        let s = digits(n, 10);
        assert(s.drop_last() =~= digits(n / 10, 10));
        assert(s.last() == digit_char((n % 10) as int));
        assert(digit_value(s.last()) == n % 10);
    }
}

proof fn lemma_digits_are_trimmed(s: Seq<char>)
    requires
        s.len() > 0,
        all_digits(s),
    ensures
        trimmed(s) == s,
{
    assert('0' <= s[0] <= '9');
    assert('0' <= s[s.len() - 1] <= '9');
    assert(!white_space(s[0]));
    assert(!white_space(s.last()));
    assert(trim_start(s) == s);
    assert(trim_end(s) == s);
}

/// Every window from one day up to the bound is accepted as it stands, the default among them;
/// none and "keep forever" are the same, and what is past the bound is refused.
pub proof fn a_written_window_is_read_back(days: int)
    requires
        0 <= days <= i64::MAX,
    ensures
        days == 0 ==> Retention::classified(decimal(days)) == Ok::<Retention, Rejected>(
            Retention::Disabled,
        ),
        0 < days <= MAX_RETENTION_DAYS ==> Retention::classified(decimal(days)) == Ok::<
            Retention,
            Rejected,
        >(Retention::Days { value: days as u32 }),
        days > MAX_RETENTION_DAYS ==> Retention::classified(decimal(days)) == Err::<
            Retention,
            Rejected,
        >(Rejected::AboveMax),
{
    lemma_digits_read_back(days as nat);
    let s = decimal(days);
    lemma_digits_are_trimmed(s);
    assert('0' <= s[0] <= '9');
    assert(integer(s) == Some(days));
}

/// A setting is read by the number that it stands for, without the white space around it: zero
/// keeps everything, up to a hundred years is a window of that many days, and everything else is
/// refused for its own reason.
pub proof fn a_setting_means_its_number(
    raw: &str,
    classified: Result<Retention, Rejected>,
    parsed: Retention,
    stored: Retention,
    absent: Retention,
)
    requires
        call_ensures(Retention::classify, (raw,), classified),
        call_ensures(Retention::parse, (raw,), parsed),
        call_ensures(Retention::from_stored, (Some(raw),), stored),
        call_ensures(Retention::from_stored, (None,), absent),
    ensures
        ({
            let n = integer_i64(trimmed(raw@));
            &&& n is None ==> classified == Err::<Retention, Rejected>(Rejected::NotANumber)
            &&& n is Some && n->0 < 0 ==> classified == Err::<Retention, Rejected>(
                Rejected::Negative,
            )
            &&& n is Some && n->0 > 36_500 ==> classified == Err::<Retention, Rejected>(
                Rejected::AboveMax,
            )
            &&& n is Some && n->0 == 0 ==> classified is Ok && classified->Ok_0 is Disabled
            &&& n is Some && 0 < n->0 <= 36_500 ==> classified is Ok && (
            classified->Ok_0 matches Retention::Days { value } && value == n->0)
        }),
        classified is Ok ==> parsed == classified->Ok_0,
        classified is Err ==> parsed is Invalid,
        stored == parsed,
        absent matches Retention::Days { value } && value == 30,
{
}

} // verus!
