//! Names of a slice's archive: the local staging file, the object store
//! bucket and the object key, all derived from the window start and topic.
use vstd::prelude::*;
use vstd::string::*;
use crate::window::{usable_event_time, MAX_EVENT_MILLIS};

verus! {

/// Largest Unix time in seconds that a usable event time reaches.
pub const MAX_NAMED_SECS: i64 = 253402300799;

/// The UTC calendar date of a Unix time in seconds, as `YYYY-MM-DD`.
pub uninterp spec fn utc_date_text(secs: int) -> Seq<char>;

/// The decimal digit `d`, for `0 <= d < 10`.
pub open spec fn digit_char(d: int) -> char {
    if d == 0 {
        '0'
    } else if d == 1 {
        '1'
    } else if d == 2 {
        '2'
    } else if d == 3 {
        '3'
    } else if d == 4 {
        '4'
    } else if d == 5 {
        '5'
    } else if d == 6 {
        '6'
    } else if d == 7 {
        '7'
    } else if d == 8 {
        '8'
    } else {
        '9'
    }
}

/// `n` as two decimal digits, for `0 <= n < 100`.
pub open spec fn two_digits(n: int) -> Seq<char> {
    seq![digit_char(n / 10), digit_char(n % 10)]
}

/// The UTC time of day of a Unix time in seconds, as `HH:MM:SS`.
pub open spec fn utc_time_text(secs: int) -> Seq<char> {
    let t = secs % 86400;
    two_digits(t / 3600) + seq![':'] + two_digits(t / 60 % 60) + seq![':'] + two_digits(t % 60)
}

/// Relies on chrono's `DateTime::<Utc>::from_timestamp` and
/// `format("%Y-%m-%d")`: the UTC date of `secs`; `from_timestamp` gives a
/// value for every time from 1970 to the end of the year 9999.
#[verifier::external_body]
fn format_utc_date(secs: i64) -> (r: Option<String>)
    ensures
        0 <= secs <= MAX_NAMED_SECS ==> r is Some,
        r matches Some(s) ==> s@ == utc_date_text(secs as int),
{
    match chrono::DateTime::<chrono::Utc>::from_timestamp(secs, 0) {
        Some(d) => Some(d.format("%Y-%m-%d").to_string()),
        None => None,
    }
}

/// Relies on chrono's `DateTime::<Utc>::from_timestamp` and
/// `format("%H:%M:%S")`: hour, minute and second of `secs` in UTC, each as
/// two zero-padded digits.
#[verifier::external_body]
fn format_utc_time(secs: i64) -> (r: Option<String>)
    ensures
        0 <= secs <= MAX_NAMED_SECS ==> r is Some,
        r matches Some(s) ==> s@ == utc_time_text(secs as int),
{
    match chrono::DateTime::<chrono::Utc>::from_timestamp(secs, 0) {
        Some(d) => Some(d.format("%H:%M:%S").to_string()),
        None => None,
    }
}

pub open spec fn gz_suffix() -> Seq<char> {
    seq!['.', 'g', 'z']
}

/// Object key: `HH:MM:SS-<topic>.gz`, from the window start.
pub open spec fn spec_object_key(window: int, topic: Seq<char>) -> Seq<char> {
    utc_time_text(window / 1000) + seq!['-'] + topic + gz_suffix()
}

/// Bucket: `<prefix>/<topic>/YYYY-MM-DD`, from the window start.
pub open spec fn spec_bucket_name(prefix: Seq<char>, window: int, topic: Seq<char>) -> Seq<char> {
    prefix + seq!['/'] + topic + seq!['/'] + utc_date_text(window / 1000)
}

/// Staging file: `YYYY-MM-DD_HH:MM:SS-<topic>.gz`; the date keeps the windows
/// of different days apart.
pub open spec fn spec_staging_name(window: int, topic: Seq<char>) -> Seq<char> {
    utc_date_text(window / 1000) + seq!['_'] + spec_object_key(window, topic)
}

/// Where the archive of one window of one topic lives.
pub struct ArchiveNames {
    pub staging_file: String,
    pub bucket: String,
    pub key: String,
}

impl ArchiveNames {
    pub open spec fn names(&self, prefix: Seq<char>, window: int, topic: Seq<char>) -> bool {
        &&& self.staging_file@ == spec_staging_name(window, topic)
        &&& self.bucket@ == spec_bucket_name(prefix, window, topic)
        &&& self.key@ == spec_object_key(window, topic)
    }
}

/// The names of the archive of the window starting at `window` for `topic`.
pub fn archive_names(window: i64, topic: &String, bucket_prefix: &String) -> (r: ArchiveNames)
    requires
        usable_event_time(window as int),
    ensures
        r.names(bucket_prefix@, window as int, topic@),
{
    let secs = window / 1000;
    assert(secs <= MAX_NAMED_SECS) by {
        assert(window <= MAX_EVENT_MILLIS);
    }
    let date = match format_utc_date(secs) {
        Some(d) => d,
        None => String::new(),
    };
    let time = match format_utc_time(secs) {
        Some(t) => t,
        None => String::new(),
    };
    proof {
        reveal_strlit("-");
        reveal_strlit(".gz");
        reveal_strlit("/");
        reveal_strlit("_");
    }
    let key = time.concat("-").concat(topic.as_str()).concat(".gz");
    assert(key@ =~= spec_object_key(window as int, topic@));
    let bucket = bucket_prefix.clone().concat("/").concat(topic.as_str()).concat("/").concat(
        date.as_str(),
    );
    assert(bucket@ =~= spec_bucket_name(bucket_prefix@, window as int, topic@));
    let staging_file = date.concat("_").concat(key.as_str());
    assert(staging_file@ =~= spec_staging_name(window as int, topic@));
    ArchiveNames { staging_file, bucket, key }
}

} // verus!
