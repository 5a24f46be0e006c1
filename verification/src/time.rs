//! Instants and the time between them.

use vstd::prelude::*;

verus! {

/// An instant: seconds since 1970, and nanoseconds within the second, which
/// reach a thousand million within a leap second.
#[derive(Debug, Clone, Copy, PartialEq, Eq, Structural)]
pub struct Timestamp {
    pub secs: i64,
    pub nanos: u32,
}

impl Timestamp {
    /// Whether the instant lies between the years 0 and 9999, up to a day, and
    /// its nanoseconds lie within a second that can be.
    pub open spec fn wf(self) -> bool {
        &&& -62167305600 <= self.secs <= 253402387199
        &&& self.nanos < 2_000_000_000
        &&& self.nanos >= 1_000_000_000 ==> self.secs % 60 == 59
    }

    /// Whether the instant can be compared with others.
    pub fn is_valid(&self) -> (r: bool)
        ensures
            r == self.wf(),
    {
        if self.secs < -62167305600 || self.secs > 253402387199 || self.nanos >= 2_000_000_000 {
            return false;
        }
        // the remainder of a number that was moved above zero
        let shifted: i64 = self.secs + 62167305600;
        assert(shifted % 60 == self.secs % 60) by {
            assert(62167305600int % 60 == 0);
            vstd::arithmetic::div_mod::lemma_mod_add_multiples_vanish(self.secs as int, 60);
            assert(62167305600int == 60 * 1036121760);
            vstd::arithmetic::div_mod::lemma_mod_multiples_vanish(1036121760, self.secs as int, 60);
        }
        self.nanos < 1_000_000_000 || shifted % 60 == 59
    }
}

/// A number of nanoseconds in whole seconds, towards zero.
pub open spec fn whole_seconds(nanos: int) -> int {
    if nanos >= 0 {
        nanos / 1_000_000_000
    } else {
        -((-nanos) / 1_000_000_000)
    }
}

/// The seconds from one instant to another. A leap second of the earlier one
/// counts where its time of day is the earlier one too.
pub open spec fn seconds_from_to(from: Timestamp, to: Timestamp) -> int {
    let day_from = from.secs as int % 86400;
    let day_to = to.secs as int % 86400;
    let leap = if day_to > day_from && from.nanos >= 1_000_000_000 {
        1int
    } else if day_to < day_from && to.nanos >= 1_000_000_000 {
        -1int
    } else {
        0int
    };
    whole_seconds((to.secs - from.secs + leap) * 1_000_000_000 + (to.nanos - from.nanos))
}

/// The instant that [`chrono::DateTime::parse_from_rfc3339`] reads in a text.
pub uninterp spec fn rfc3339_instant(s: Seq<char>) -> Option<Timestamp>;

/// Calls [`chrono::DateTime::parse_from_rfc3339`]: what it reads, or that it
/// reads nothing, is a function of the text. The year has four digits and the
/// offset is less than a day, and a leap second stands at the end of a minute.
#[verifier::external_body]
pub(crate) fn parse_rfc3339(s: &str) -> (r: Option<Timestamp>)
    ensures
        r == rfc3339_instant(s@),
        r is Some ==> r->0.wf(),
{
    chrono::DateTime::parse_from_rfc3339(s).ok().map(
        |t| Timestamp { secs: t.timestamp(), nanos: t.timestamp_subsec_nanos() },
    )
}

/// Calls [`chrono::DateTime::signed_duration_since`]: the seconds from one
/// instant to another, towards zero.
#[verifier::external_body]
pub(crate) fn seconds_between(from: Timestamp, to: Timestamp) -> (r: i64)
    requires
        from.wf(),
        to.wf(),
    ensures
        r == seconds_from_to(from, to),
{
    let a = chrono::DateTime::from_timestamp(from.secs, from.nanos).unwrap();
    let b = chrono::DateTime::from_timestamp(to.secs, to.nanos).unwrap();
    b.signed_duration_since(a).num_seconds()
}

/// The time from one instant to another is that between their seconds where the
/// instants are whole ones, and it turns round with them.
pub proof fn law_time_between_instants(from: Timestamp, to: Timestamp)
    requires
        from.nanos < 1_000_000_000,
        to.nanos < 1_000_000_000,
    ensures
        from.nanos == to.nanos ==> seconds_from_to(from, to) == to.secs - from.secs,
        seconds_from_to(from, to) == -seconds_from_to(to, from),
        to.secs > from.secs ==> to.secs - from.secs - 1 <= seconds_from_to(from, to) <= to.secs
            - from.secs,
{
}

} // verus!
