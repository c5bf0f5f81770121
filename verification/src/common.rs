//! Shared building blocks: timestamps, provenance, time sources, paging and list parameters.

use vstd::prelude::*;
use vstd::string::*;
use chrono::{DateTime, SecondsFormat, Utc};

verus! {

broadcast use vstd::string::group_string_axioms;

/// What chrono's `DateTime::<Utc>::from_str` yields for a text: the Unix seconds and the
/// nanoseconds of the instant, or nothing when the text is refused.
pub uninterp spec fn chrono_parse_utc(text: Seq<char>) -> Option<(i64, u32)>;

/// Whether chrono's `DateTime::from_timestamp(secs, nanos)` yields an instant.
pub uninterp spec fn chrono_instant_exists(secs: i64, nanos: u32) -> bool;

/// chrono's RFC 3339 text of an instant with nine fraction digits and a `Z` suffix.
pub uninterp spec fn chrono_rfc3339_nanos(secs: i64, nanos: u32) -> Seq<char>;

/// chrono's RFC 3339 text of an instant with as many fraction digits as it needs (0, 3, 6
/// or 9) and a `Z` suffix: the form of timestamps on the wire.
pub uninterp spec fn chrono_rfc3339_auto(secs: i64, nanos: u32) -> Seq<char>;

/// Parses a date-time with chrono (`str::parse::<DateTime<Utc>>`, a relaxed RFC 3339 that
/// converts any offset to UTC). Ok holds the instant's Unix seconds and nanoseconds, which
/// chrono can always turn back into that instant; Err holds chrono's message, whose text is
/// not stated here.
#[verifier::external_body]
fn parse_utc(text: &str) -> (r: Result<(i64, u32), String>)
    ensures
        r is Ok <==> chrono_parse_utc(text@) is Some,
        r matches Ok(p) ==> chrono_parse_utc(text@) == Some(p) && chrono_instant_exists(p.0, p.1),
{
    match text.parse::<DateTime<Utc>>() {
        Ok(d) => Ok((d.timestamp(), d.timestamp_subsec_nanos())),
        Err(e) => Err(e.to_string()),
    }
}

/// Whether chrono's `DateTime::from_timestamp` accepts these parts.
#[verifier::external_body]
fn instant_exists(secs: i64, nanos: u32) -> (r: bool)
    ensures
        r == chrono_instant_exists(secs, nanos),
{
    DateTime::from_timestamp(secs, nanos).is_some()
}

/// Instants of the years 1 to 9999 that are not leap seconds: chrono writes their RFC 3339
/// text with a four-digit year and reads that text back.
pub open spec fn rfc3339_range(secs: i64, nanos: u32) -> bool {
    -62135596800 <= secs <= 253402300799 && nanos < 1_000_000_000
}

/// chrono's `to_rfc3339_opts(SecondsFormat::Nanos, true)` of the instant. For an instant of
/// the years 1 to 9999 that is not a leap second, chrono's parser reads the text back as the
/// same instant.
#[verifier::external_body]
fn format_rfc3339_nanos(secs: i64, nanos: u32) -> (s: String)
    requires
        chrono_instant_exists(secs, nanos),
    ensures
        s@ == chrono_rfc3339_nanos(secs, nanos),
        rfc3339_range(secs, nanos) ==> chrono_parse_utc(s@) == Some((secs, nanos)),
{
    DateTime::from_timestamp(secs, nanos).unwrap().to_rfc3339_opts(SecondsFormat::Nanos, true)
}

/// chrono's `to_rfc3339_opts(SecondsFormat::AutoSi, true)` of the instant. For an instant of
/// the years 1 to 9999 that is not a leap second, chrono's parser reads the text back as the
/// same instant.
#[verifier::external_body]
fn format_rfc3339_auto(secs: i64, nanos: u32) -> (s: String)
    requires
        chrono_instant_exists(secs, nanos),
    ensures
        s@ == chrono_rfc3339_auto(secs, nanos),
        rfc3339_range(secs, nanos) ==> chrono_parse_utc(s@) == Some((secs, nanos)),
{
    DateTime::from_timestamp(secs, nanos).unwrap().to_rfc3339_opts(SecondsFormat::AutoSi, true)
}

/// The system clock against the Unix epoch (std's `SystemTime::now().duration_since(UNIX_EPOCH)`):
/// Ok with the time elapsed since the epoch, or, when the clock reads before the epoch, Err with
/// the time from the reading to the epoch (`SystemTimeError::duration`); each as whole seconds
/// and the nanoseconds of the second, which std keeps below a billion. Nothing else is stated of
/// the value: it is the clock's.
#[verifier::external_body]
fn system_clock() -> (t: Result<(u64, u32), (u64, u32)>)
    ensures
        match t {
            Ok(p) => p.1 < 1_000_000_000,
            Err(p) => p.1 < 1_000_000_000,
        },
{
    match std::time::SystemTime::now().duration_since(std::time::UNIX_EPOCH) {
        Ok(d) => Ok((d.as_secs(), d.subsec_nanos())),
        Err(e) => Err((e.duration().as_secs(), e.duration().subsec_nanos())),
    }
}

/// The Unix seconds and nanoseconds of a clock reading: Ok is a time after the epoch, Err a
/// time before it (`s` seconds and `n` nanoseconds earlier).
pub open spec fn clock_instant(reading: Result<(u64, u32), (u64, u32)>) -> (int, int) {
    match reading {
        Ok(p) => (p.0 as int, p.1 as int),
        Err(p) => if p.1 == 0 {
            (-(p.0 as int), 0)
        } else {
            (-(p.0 as int) - 1, 1_000_000_000 - p.1)
        },
    }
}

/// Whether a clock reading is an instant that a timestamp can hold.
pub open spec fn clock_reading_fits(reading: Result<(u64, u32), (u64, u32)>) -> bool {
    let (s, n) = clock_instant(reading);
    &&& i64::MIN <= s <= i64::MAX
    &&& 0 <= n <= u32::MAX
    &&& chrono_instant_exists(s as i64, n as u32)
}

/// The message of a refused timestamp.
pub open spec fn timestamp_error_text(detail: Seq<char>) -> Seq<char> {
    "非法 RFC 3339 时间："@ + detail
}

/// A wire timestamp: an instant in UTC (ISO-8601 / RFC 3339 on the wire, never an integer).
/// It is held as Unix seconds and nanoseconds of an instant that chrono can represent.
#[derive(Debug, Clone, Copy, PartialEq, Eq, PartialOrd, Ord, Structural)]
pub struct Timestamp {
    secs: i64,
    nanos: u32,
}

impl Timestamp {
    /// The Unix seconds.
    pub closed spec fn seconds(self) -> i64 {
        self.secs
    }

    /// The nanoseconds within the second (a leap second counts past a billion).
    pub closed spec fn nanoseconds(self) -> u32 {
        self.nanos
    }

    /// Every timestamp is an instant chrono can represent.
    #[verifier::type_invariant]
    spec fn representable(self) -> bool {
        chrono_instant_exists(self.secs, self.nanos)
    }

    /// Every timestamp is an instant chrono can represent.
    pub closed spec fn wf(self) -> bool {
        chrono_instant_exists(self.secs, self.nanos)
    }

    /// Parses RFC 3339 text (any offset is converted to UTC).
    pub fn parse_rfc3339(s: &str) -> (r: Result<Self, String>)
        ensures
            r is Ok <==> chrono_parse_utc(s@) is Some,
            r matches Ok(t) ==> t.wf() && chrono_parse_utc(s@) == Some((t.seconds(), t.nanoseconds())),
            r matches Err(m) ==> exists|d: Seq<char>| m@ == timestamp_error_text(d),
    {
        match parse_utc(s) {
            Ok(p) => Ok(Timestamp { secs: p.0, nanos: p.1 }),
            Err(detail) => {
                let mut m = "非法 RFC 3339 时间：".to_owned();
                m.append(detail.as_str());
                assert(m@ == timestamp_error_text(detail@));
                Err(m)
            },
        }
    }

    /// The timestamp of the given Unix seconds and nanoseconds, when chrono can represent it.
    pub fn from_unix(secs: i64, nanos: u32) -> (r: Option<Self>)
        ensures
            r is Some <==> chrono_instant_exists(secs, nanos),
            r matches Some(t) ==> t.wf() && t.seconds() == secs && t.nanoseconds() == nanos,
    {
        if instant_exists(secs, nanos) {
            Some(Timestamp { secs, nanos })
        } else {
            None
        }
    }

    /// The timestamp of a clock reading against the Unix epoch (see [`clock_instant`]), when
    /// chrono can represent it.
    pub fn from_clock(reading: Result<(u64, u32), (u64, u32)>) -> (t: Option<Self>)
        ensures
            t is Some <==> clock_reading_fits(reading),
            t matches Some(x) ==> x.wf() && x.seconds() == clock_instant(reading).0 && x.nanoseconds()
                == clock_instant(reading).1,
    {
        let parts: Option<(i64, u32)> = match reading {
            Ok(p) => if p.0 <= 9223372036854775807u64 {
                Some((p.0 as i64, p.1))
            } else {
                None
            },
            Err(p) => if p.1 == 0 {
                if p.0 <= 9223372036854775807u64 {
                    Some((-(p.0 as i64), 0u32))
                } else if p.0 == 9223372036854775808u64 {
                    Some((i64::MIN, 0u32))
                } else {
                    None
                }
            } else if p.0 <= 9223372036854775807u64 && p.1 <= 1_000_000_000u32 {
                Some((-(p.0 as i64) - 1, 1_000_000_000u32 - p.1))
            } else {
                None
            },
        };
        match parts {
            Some(q) => if instant_exists(q.0, q.1) {
                Some(Timestamp { secs: q.0, nanos: q.1 })
            } else {
                None
            },
            None => None,
        }
    }

    /// The current instant, when chrono can represent what the system clock reads (which
    /// instant it is, is the clock's).
    pub fn now() -> (t: Option<Self>)
        ensures
            t matches Some(x) ==> x.wf() && x.nanoseconds() < 1_000_000_000,
    {
        Self::from_clock(system_clock())
    }

    /// The Unix seconds.
    pub fn unix_seconds(&self) -> (s: i64)
        ensures
            s == self.seconds(),
    {
        self.secs
    }

    /// The nanoseconds within the second.
    pub fn subsec_nanos(&self) -> (n: u32)
        ensures
            n == self.nanoseconds(),
    {
        self.nanos
    }

    /// Whether the instant lies in the years 1 to 9999 and is not a leap second.
    pub open spec fn in_rfc3339_range(self) -> bool {
        rfc3339_range(self.seconds(), self.nanoseconds())
    }

    /// The wire text: RFC 3339 in UTC with a `Z` suffix and only the fraction digits needed.
    /// In the years 1 to 9999 (leap seconds aside) it reads back as the same instant.
    pub fn to_rfc3339(&self) -> (s: String)
        ensures
            s@ == chrono_rfc3339_auto(self.seconds(), self.nanoseconds()),
            self.in_rfc3339_range() ==> chrono_parse_utc(s@) == Some((self.seconds(), self.nanoseconds())),
    {
        proof {
            use_type_invariant(self);
        }
        format_rfc3339_auto(self.secs, self.nanos)
    }

    /// The storage key: RFC 3339 with nine fraction digits and a `Z` suffix, so that text
    /// order is time order. In the years 1 to 9999 (leap seconds aside) it reads back as the
    /// same instant.
    pub fn storage_key(&self) -> (s: String)
        ensures
            s@ == chrono_rfc3339_nanos(self.seconds(), self.nanoseconds()),
            self.in_rfc3339_range() ==> chrono_parse_utc(s@) == Some((self.seconds(), self.nanoseconds())),
    {
        proof {
            use_type_invariant(self);
        }
        format_rfc3339_nanos(self.secs, self.nanos)
    }
}

/// Two timestamps of the same seconds and nanoseconds are the same timestamp.
pub proof fn lemma_same_instant(a: Timestamp, b: Timestamp)
    requires
        a.seconds() == b.seconds(),
        a.nanoseconds() == b.nanoseconds(),
    ensures
        a == b,
{
}

/// Where the time of an event comes from (required whenever it is not the capture time).
#[derive(Debug, Clone, Copy, PartialEq, Eq, Structural)]
pub enum AtSource {
    /// A time stated in the content.
    ContentTime,
    /// A time derived from the content (such as "yesterday").
    DerivedTime,
    /// The capture time.
    CaptureTime,
}

/// How content arrived.
#[derive(Debug, Clone, Copy, PartialEq, Eq, Structural)]
pub enum ProvenanceSource {
    /// Pasted text.
    Paste,
    /// A screenshot.
    Screenshot,
    /// A dropped file.
    File,
    /// Created by hand (outside the capture pipeline).
    Manual,
}

/// Provenance of a note or a search hit.
#[derive(Debug, Clone, PartialEq)]
pub struct Provenance {
    pub source: ProvenanceSource,
    /// Description of the origin (such as a chat group's name).
    pub origin: String,
    /// Whether the content was imported as a backfill.
    pub imported: bool,
}

/// Paging metadata of a list envelope.
#[derive(Debug, Clone, Copy, PartialEq, Eq, Structural)]
pub struct PaginationMeta {
    /// Total number of items.
    pub total: u64,
    /// Page size.
    pub limit: u32,
    /// Offset.
    pub offset: u32,
}

/// The page size of a list when none is given.
pub const DEFAULT_LIST_LIMIT: u32 = 50;

/// Query parameters shared by list endpoints.
#[derive(Debug, Clone, Copy, PartialEq, Eq, Structural, Default)]
pub struct ListParams {
    /// Page size (50 when left out).
    pub limit: Option<u32>,
    /// Offset (0 when left out).
    pub offset: Option<u32>,
}

impl ListParams {
    /// The page size and the offset, with their defaults (50 and 0).
    pub open spec fn page_of(self) -> (u32, u32) {
        (
            match self.limit {
                Some(l) => l,
                None => DEFAULT_LIST_LIMIT,
            },
            match self.offset {
                Some(o) => o,
                None => 0,
            },
        )
    }

    /// The page size and the offset, with their defaults.
    pub fn page(&self) -> (r: (u32, u32))
        ensures
            r == self.page_of(),
    {
        let limit = match self.limit {
            Some(l) => l,
            None => DEFAULT_LIST_LIMIT,
        };
        let offset = match self.offset {
            Some(o) => o,
            None => 0,
        };
        (limit, offset)
    }
}

/// The page size is the given limit, or 50 when none is given; the offset is the given
/// offset, or 0 when none is given. Each depends on its own field alone.
pub proof fn law_page_fields(p: ListParams, q: ListParams)
    ensures
        p.limit matches Some(l) ==> p.page_of().0 == l,
        p.limit is None ==> p.page_of().0 == 50,
        p.offset matches Some(o) ==> p.page_of().1 == o,
        p.offset is None ==> p.page_of().1 == 0,
        p.limit == q.limit ==> p.page_of().0 == q.page_of().0,
        p.offset == q.offset ==> p.page_of().1 == q.page_of().1,
{
}

} // verus!
