//! Instants and spans of time.

use vstd::prelude::*;

verus! {

/// The first second that a [`Timestamp`] can hold: the start of the year -262143.
pub const MIN_SECS: i64 = -8334601228800;

/// The last second that a [`Timestamp`] can hold: the end of the year 262142.
pub const MAX_SECS: i64 = 8210266876799;

/// The first second of the year 0.
pub const FIRST_SECOND_OF_YEAR_0: i64 = -62167219200;

/// The last second of the year 9999.
pub const LAST_SECOND_OF_YEAR_9999: i64 = 253402300799;

/// How many nanoseconds make a second.
pub const NANOS_PER_SEC: u32 = 1_000_000_000;

/// An instant in UTC, in seconds since the start of 1970 and nanoseconds.
///
/// The nanoseconds go past a second only within a leap second, which the last
/// second of a minute carries.
#[derive(Debug, Clone, Copy, PartialEq, Eq, Structural)]
pub struct Timestamp {
    secs: i64,
    nanos: u32,
}

/// Whether an instant of these seconds and nanoseconds exists.
pub open spec fn representable(secs: int, nanos: int) -> bool {
    &&& MIN_SECS <= secs <= MAX_SECS
    &&& 0 <= nanos < 2 * NANOS_PER_SEC
    &&& nanos >= NANOS_PER_SEC ==> secs % 60 == 59
}

impl Timestamp {
    /// The seconds since the start of 1970.
    pub closed spec fn secs(self) -> int {
        self.secs as int
    }

    /// The nanoseconds within the second.
    pub closed spec fn nanos(self) -> int {
        self.nanos as int
    }

    #[verifier::type_invariant]
    spec fn well_formed(self) -> bool {
        representable(self.secs as int, self.nanos as int)
    }

    /// Whether the instant lies in the years 0 to 9999, which four digits can tell.
    pub open spec fn in_four_digit_years(self) -> bool {
        FIRST_SECOND_OF_YEAR_0 <= self.secs() <= LAST_SECOND_OF_YEAR_9999
    }

    /// Whether the instant `minutes` later exists too.
    pub open spec fn can_advance(self, minutes: int) -> bool {
        self.secs() + 60 * minutes <= MAX_SECS
    }

    /// The instant of the given seconds and nanoseconds, where it exists.
    pub fn new(secs: i64, nanos: u32) -> (res: Option<Timestamp>)
        ensures
            match res {
                Some(t) => representable(secs as int, nanos as int) && t.secs() == secs && t.nanos()
                    == nanos,
                None => !representable(secs as int, nanos as int),
            },
    {
        if secs < MIN_SECS || secs > MAX_SECS || nanos >= 2 * NANOS_PER_SEC {
            return None;
        }
        if nanos >= NANOS_PER_SEC {
            let shifted: i64 = secs - MIN_SECS;
            assert(MIN_SECS % 60 == 0);
            assert(shifted % 60 == secs as int % 60);
            if shifted % 60 != 59 {
                return None;
            }
        }
        Some(Timestamp { secs, nanos })
    }

    /// The seconds since the start of 1970.
    pub fn unix_secs(&self) -> (res: i64)
        ensures
            res == self.secs(),
    {
        self.secs
    }

    /// The nanoseconds within the second.
    pub fn subsec_nanos(&self) -> (res: u32)
        ensures
            res == self.nanos(),
    {
        self.nanos
    }

    /// Whether the instant `minutes` later exists too.
    pub fn has_room_for(&self, minutes: u32) -> (res: bool)
        ensures
            res == self.can_advance(minutes as int),
    {
        proof {
            use_type_invariant(self);
        }
        let ahead: i64 = minutes as i64 * 60;
        ahead <= MAX_SECS - self.secs
    }

    /// The instant `minutes` later. A leap second counts as none: what is
    /// added to an instant within one leads out of it.
    pub fn plus_minutes(&self, minutes: u32) -> (res: Timestamp)
        requires
            minutes > 0,
            self.can_advance(minutes as int),
        ensures
            res.secs() == self.secs() + 60 * minutes,
            res.nanos() == self.nanos() % (NANOS_PER_SEC as int),
    {
        proof {
            use_type_invariant(self);
        }
        Timestamp { secs: self.secs + minutes as i64 * 60, nanos: self.nanos % NANOS_PER_SEC }
    }
}

/// An instant is its seconds and nanoseconds: two of the same are the same.
pub proof fn law_an_instant_is_its_seconds_and_nanoseconds(a: Timestamp, b: Timestamp)
    requires
        a.secs() == b.secs(),
        a.nanos() == b.nanos(),
    ensures
        a == b,
{
}

/// The text that `chrono::DateTime::to_rfc3339` writes for an instant.
pub uninterp spec fn rfc3339_text(instant: Timestamp) -> Seq<char>;

/// What `chrono::DateTime::parse_from_rfc3339` makes of a text: the instant in
/// UTC, or the message of its error.
pub uninterp spec fn rfc3339_value(text: Seq<char>) -> Result<Timestamp, Seq<char>>;

/// Whether `text` is read as `instant`.
pub open spec fn reads_as(text: Seq<char>, instant: Timestamp) -> bool {
    rfc3339_value(text) matches Ok(value) && value == instant
}

/// A result with the text of its error.
pub open spec fn outcome_text<T>(outcome: Result<T, String>) -> Result<T, Seq<char>> {
    match outcome {
        Ok(value) => Ok(value),
        Err(message) => Err(message@),
    }
}

/// The text that `chrono::DateTime::format` writes for an instant.
pub uninterp spec fn formatted(instant: Timestamp, format: Seq<char>) -> Seq<char>;

/// The format of the times that a report shows.
pub const REPORT_TIME_FORMAT: &'static str = "%Y-%m-%d %H:%M:%S UTC";

/// Calls `chrono::Utc::now`. Nothing is claimed of the instant that the clock
/// shows. A clock set to before 1970 makes it panic.
#[verifier::external_body]
pub(crate) fn utc_now() -> (res: Timestamp) {
    let now = chrono::Utc::now();
    Timestamp { secs: now.timestamp(), nanos: now.timestamp_subsec_nanos() }
}

/// Calls `chrono::DateTime::to_rfc3339` on an instant in UTC. The text is a
/// function of the instant. In the years 0 to 9999 it holds the instant to the
/// nanosecond in the form that `parse_from_rfc3339` reads, which gives the
/// instant back; other years carry a sign, which that function refuses.
#[verifier::external_body]
pub(crate) fn to_rfc3339(instant: &Timestamp) -> (res: String)
    ensures
        res@ == rfc3339_text(*instant),
        instant.in_four_digit_years() ==> reads_as(res@, *instant),
{
    chrono::DateTime::from_timestamp(instant.secs, instant.nanos).unwrap().to_rfc3339()
}

/// The text that `chrono::DateTime::to_rfc3339_opts` writes for an instant, with
/// no more digits than it takes and with `Z` for UTC.
pub uninterp spec fn rfc3339_z_text(instant: Timestamp) -> Seq<char>;

/// Calls `chrono::DateTime::to_rfc3339_opts` on an instant in UTC, with
/// `SecondsFormat::AutoSi` and `Z`, which is how chrono writes an instant to
/// JSON. The text is a function of the instant.
#[verifier::external_body]
pub(crate) fn to_rfc3339_z(instant: &Timestamp) -> (res: String)
    ensures
        res@ == rfc3339_z_text(*instant),
{
    chrono::DateTime::from_timestamp(instant.secs, instant.nanos)
        .unwrap()
        .to_rfc3339_opts(chrono::SecondsFormat::AutoSi, true)
}

/// Calls `chrono::DateTime::parse_from_rfc3339` and takes the result to UTC.
/// Both the instant and the message of an error are functions of the text.
#[verifier::external_body]
pub(crate) fn from_rfc3339(text: &str) -> (res: Result<Timestamp, String>)
    ensures
        outcome_text(res) == rfc3339_value(text@),
{
    match chrono::DateTime::parse_from_rfc3339(text) {
        Ok(dt) => Ok(Timestamp { secs: dt.timestamp(), nanos: dt.timestamp_subsec_nanos() }),
        Err(e) => Err(e.to_string()),
    }
}

/// Calls `chrono::DateTime::format` on an instant in UTC. The text is a
/// function of the instant and the format. A format that chrono does not know
/// makes it panic: the one admitted here holds only items that it does know.
#[verifier::external_body]
pub(crate) fn format_instant(instant: &Timestamp, format: &str) -> (res: String)
    requires
        format@ == REPORT_TIME_FORMAT@,
    ensures
        res@ == formatted(*instant, format@),
{
    chrono::DateTime::from_timestamp(instant.secs, instant.nanos).unwrap().format(format).to_string()
}

/// A span of time, in seconds and nanoseconds.
#[derive(Debug, Clone, Copy, PartialEq, Eq, Structural)]
pub struct Duration {
    /// Whole seconds.
    pub secs: u64,
    /// Nanoseconds on top.
    pub nanos: u32,
}

impl Duration {
    /// The length of the span in nanoseconds.
    pub open spec fn total_nanos(self) -> nat {
        (self.secs * NANOS_PER_SEC + self.nanos) as nat
    }

    /// A span of whole seconds.
    pub fn from_secs(secs: u64) -> (res: Duration)
        ensures
            res == (Duration { secs, nanos: 0 }),
    {
        Duration { secs, nanos: 0 }
    }

    /// A span of whole minutes.
    pub fn from_mins(mins: u64) -> (res: Duration)
        requires
            60 * mins <= u64::MAX,
        ensures
            res.secs == 60 * mins,
            res.nanos == 0,
    {
        Duration { secs: 60 * mins, nanos: 0 }
    }

    /// A span of whole milliseconds.
    pub fn from_millis(millis: u64) -> (res: Duration)
        ensures
            res.secs == millis / 1000,
            res.nanos == (millis % 1000) * 1_000_000,
            res.total_nanos() == millis * 1_000_000,
    {
        Duration { secs: millis / 1000, nanos: (millis % 1000) as u32 * 1_000_000 }
    }
}

/// The instants of the years from -262143 to 262142 exist, each to the nanosecond,
/// and no others but those within a leap second, at the end of a minute.
pub proof fn law_which_instants_exist(secs: int, nanos: int)
    ensures
        0 <= nanos < 1_000_000_000 ==> (representable(secs, nanos) <==> -8334601228800 <= secs
            <= 8210266876799),
        1_000_000_000 <= nanos < 2_000_000_000 ==> (representable(secs, nanos) <==> secs % 60 == 59
            && -8334601228800 <= secs <= 8210266876799),
        nanos < 0 || nanos >= 2_000_000_000 ==> !representable(secs, nanos),
{
}

/// There is a time after some minutes exactly where it is no later than the last
/// second that exists.
pub proof fn law_time_ends(instant: Timestamp, minutes: nat)
    ensures
        instant.can_advance(minutes as int) <==> instant.secs() + 60 * minutes <= 8210266876799,
{
}

/// A second is a thousand million nanoseconds.
pub proof fn law_spans_add_up(span: Duration)
    ensures
        span.total_nanos() == span.secs * 1_000_000_000 + span.nanos,
{
}

} // verus!
