//! A tracker that tells a messenger how close a value has come to its quota.

use vstd::prelude::*;

verus! {

/// Receives the notices of a tracker.
pub trait Messenger {
    fn send(&self, msg: &str);
}

/// How much of a quota is used up, as a quotient in double precision.
#[derive(Debug, Clone, Copy, PartialEq, Eq)]
pub enum Usage {
    /// Less than three quarters.
    Fine,
    /// Three quarters or more, less than nine tenths.
    Warning,
    /// Nine tenths or more, less than all.
    Urgent,
    /// All of it or more.
    Over,
}

/// Two to the power 53: below it every whole number is a double-precision
/// number as it stands.
pub const EXACT_BELOW: u128 = 0x20_0000_0000_0000;

/// Two to the power 54, the scale on which the three marks below are
/// written.
pub const SCALE: u128 = 0x40_0000_0000_0000;

/// Half-way between one and the double-precision number before it, times
/// `SCALE`. A quotient on this mark rounds up to one, whose last bit is even.
pub const MARK_OVER: u128 = 0x3F_FFFF_FFFF_FFFF;

/// Half-way between the double-precision number nearest to nine tenths,
/// 8106479329266893 over two to the 53, and the one before it, times `SCALE`.
/// A quotient on this mark rounds down, away from the odd last bit.
pub const MARK_URGENT: u128 = 16212958658533785;

/// Half-way between three quarters and the double-precision number before
/// it, times `SCALE`. A quotient on this mark rounds up to three quarters,
/// whose last bit is even.
pub const MARK_WARNING: u128 = 13510798882111487;

/// The distance between neighbouring double-precision numbers around `n`:
/// 1 below two to the 53, and twice as much with each further bit.
pub open spec fn ulp_of(n: nat) -> nat
    decreases n,
{
    if n < EXACT_BELOW {
        1
    } else {
        2 * ulp_of(n / 2)
    }
}

/// The whole number `n` as a double-precision number: `n` rounded to 53
/// significant bits, to the nearest such number, and to the one with an even
/// last bit where two are equally near.
pub open spec fn as_double(n: nat) -> nat {
    let ulp = ulp_of(n);
    let rest = n % ulp;
    let below = (n - rest) as nat;
    if 2 * rest > ulp || (2 * rest == ulp && (below / ulp) % 2 == 1) {
        below + ulp
    } else {
        below
    }
}

/// The usage that `value` makes of the quota `max`, decided as
/// double-precision arithmetic decides it: both numbers are rounded to
/// doubles, and their quotient, rounded to a double again, is held against
/// one, nine tenths and three quarters. The rounded quotient reaches such a
/// number exactly when the true quotient reaches the half-way mark below it.
/// Of an empty quota nothing is used by the value 0, and everything by any
/// other.
pub open spec fn usage_of(value: nat, max: nat) -> Usage {
    let a = as_double(value);
    let b = as_double(max);
    if b == 0 {
        if a == 0 {
            Usage::Fine
        } else {
            Usage::Over
        }
    } else if a * SCALE >= b * MARK_OVER {
        Usage::Over
    } else if a * SCALE > b * MARK_URGENT {
        Usage::Urgent
    } else if a * SCALE >= b * MARK_WARNING {
        Usage::Warning
    } else {
        Usage::Fine
    }
}

/// The usage by exact shares: all of the quota, nine tenths, three quarters.
pub open spec fn exact_usage_of(value: nat, max: nat) -> Usage {
    if value >= max {
        Usage::Over
    } else if 10 * value >= 9 * max {
        Usage::Urgent
    } else if 4 * value >= 3 * max {
        Usage::Warning
    } else {
        Usage::Fine
    }
}

/// A whole number below two to the 53 is a double-precision number as it
/// stands.
pub proof fn lemma_small_number_is_exact(n: nat)
    requires
        n < EXACT_BELOW,
    ensures
        as_double(n) == n,
{
}

/// For a quota above 0 and below two to the 51, and a value below two to the
/// 53, rounding changes nothing: the usage is the one by exact shares.
pub proof fn lemma_small_quota_is_exact(value: nat, max: nat)
    requires
        0 < max < 0x8_0000_0000_0000,
        value < EXACT_BELOW,
    ensures
        usage_of(value, max) == exact_usage_of(value, max),
{
}

/// A value whose double is no smaller than the quota's is over the quota,
/// whatever the two were before rounding.
pub proof fn lemma_reaching_the_quota_is_over(value: nat, max: nat)
    requires
        as_double(max) > 0,
        as_double(value) >= as_double(max),
    ensures
        usage_of(value, max) == Usage::Over,
{
    let a = as_double(value);
    let b = as_double(max);
    assert(a * SCALE >= b * MARK_OVER) by (nonlinear_arith)
        requires
            a >= b,
            b > 0,
            SCALE > MARK_OVER,
            MARK_OVER > 0,
    ;
}

/// The whole number `n` as a double-precision number, held as a whole
/// number.
pub fn to_double(n: usize) -> (r: u128)
    ensures
        r == as_double(n as nat),
        r <= 2 * n + 1,
{
    let whole: u128 = n as u128;
    let mut ulp: u128 = 1;
    let mut m: u128 = whole;
    while m >= EXACT_BELOW
        invariant
            whole == n,
            ulp >= 1,
            ulp * m <= whole,
            ulp == 1 || m >= EXACT_BELOW / 2,
            ulp_of(whole as nat) == ulp * ulp_of(m as nat),
        decreases m,
    {
        proof {
            let half = m / 2;
            assert(ulp * 2 * half <= ulp * m) by (nonlinear_arith)
                requires
                    2 * half <= m,
                    ulp >= 1,
            ;
            assert(ulp <= ulp * m) by (nonlinear_arith)
                requires
                    m >= 1,
                    ulp >= 1,
            ;
            assert(ulp * (2 * ulp_of(half as nat)) == (ulp * 2) * ulp_of(half as nat))
                by (nonlinear_arith);
        }
        m = m / 2;
        ulp = ulp * 2;
    }
    proof {
        assert(ulp <= whole || ulp == 1) by (nonlinear_arith)
            requires
                ulp * m <= whole,
                ulp >= 1,
                ulp == 1 || m >= 1,
        ;
        assert(ulp_of(m as nat) == 1);
        assert(ulp * 1 == ulp) by (nonlinear_arith);
        assert(ulp_of(whole as nat) == ulp);
    }
    let rest = whole % ulp;
    let below = whole - rest;
    if 2 * rest > ulp || (2 * rest == ulp && (below / ulp) % 2 == 1) {
        below + ulp
    } else {
        below
    }
}

/// Classifies `value` against the quota `max`.
pub fn usage(value: usize, max: usize) -> (r: Usage)
    ensures
        r == usage_of(value as nat, max as nat),
{
    let a = to_double(value);
    let b = to_double(max);
    if b == 0 {
        if a == 0 {
            Usage::Fine
        } else {
            Usage::Over
        }
    } else if a * SCALE >= b * MARK_OVER {
        Usage::Over
    } else if a * SCALE > b * MARK_URGENT {
        Usage::Urgent
    } else if a * SCALE >= b * MARK_WARNING {
        Usage::Warning
    } else {
        Usage::Fine
    }
}

/// The notice that goes with a usage, if any.
pub open spec fn notice_text(usage: Usage) -> Option<Seq<char>> {
    match usage {
        Usage::Fine => None,
        Usage::Warning => Some("Warning: You've used up over 75% of your quota!"@),
        Usage::Urgent => Some("Urgent warning: You've used up over 90% of your quota!"@),
        Usage::Over => Some("Error: You are over your quota!"@),
    }
}

/// The notice to send for a usage, or `None` where there is nothing to say.
pub fn notice(usage: Usage) -> (r: Option<&'static str>)
    ensures
        r is Some <==> usage != Usage::Fine,
        match r {
            Some(text) => notice_text(usage) == Some(text@),
            None => notice_text(usage) is None,
        },
{
    match usage {
        Usage::Fine => None,
        Usage::Warning => Some("Warning: You've used up over 75% of your quota!"),
        Usage::Urgent => Some("Urgent warning: You've used up over 90% of your quota!"),
        Usage::Over => Some("Error: You are over your quota!"),
    }
}

/// Keeps a value and its quota, and tells its messenger when the value comes
/// close to the quota or passes it.
pub struct LimitTracker<'a, T: Messenger> {
    messenger: &'a T,
    value: usize,
    max: usize,
}

impl<'a, T: Messenger> LimitTracker<'a, T> {
    /// The value last set.
    pub closed spec fn value(&self) -> usize {
        self.value
    }

    /// The quota.
    pub closed spec fn max(&self) -> usize {
        self.max
    }

    /// The messenger that gets the notices.
    pub closed spec fn messenger(&self) -> &'a T {
        self.messenger
    }

    /// A tracker with the quota `max` and the value 0.
    pub fn new(messenger: &'a T, max: usize) -> (r: LimitTracker<'a, T>)
        ensures
            r.value() == 0,
            r.max() == max,
            r.messenger() == messenger,
    {
        LimitTracker { messenger, value: 0, max }
    }

    /// Records `value` and sends the messenger the notice that goes with its
    /// usage of the quota, if there is one.
    pub fn set_value(&mut self, value: usize)
        ensures
            final(self).value() == value,
            final(self).max() == old(self).max(),
            final(self).messenger() == old(self).messenger(),
    {
        self.value = value;
        match notice(usage(self.value, self.max)) {
            Some(text) => self.messenger.send(text),
            None => {},
        }
    }
}

} // verus!
