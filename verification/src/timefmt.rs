//! The time column of a long listing: which strftime format applies to a
//! timestamp, and the formatting itself in the local time zone.

use vstd::prelude::*;
use chrono::TimeZone;
use crate::options::Opts;
use vstd::utf8::is_ascii_chars;
use crate::text::string_from_chars;
use crate::text::push_str;

verus! {

/// Half a year of seconds: timestamps closer than this to now show the time
/// of day, others the year.
pub const SIX_MONTHS: i64 = 15768000;

/// The format for the long form (`-T`).
pub open spec fn full_format() -> Seq<char> {
    "%b %e %H:%M:%S %Y"@
}

/// The format for recent timestamps.
pub open spec fn recent_format() -> Seq<char> {
    "%b %e %H:%M"@
}

/// The format for timestamps more than half a year from now.
pub open spec fn distant_format() -> Seq<char> {
    "%b %e  %Y"@
}

/// The strftime format for a timestamp: the one given with `-D`, else the
/// full form with `-T`, else the recent form within half a year either
/// side of now, else the distant form.
pub open spec fn time_format_for(time: int, now: int, opts: Opts) -> Seq<char> {
    match opts.d_fmt {
        Some(f) => f@,
        None => if opts.t_upper {
            full_format()
        } else if time + SIX_MONTHS > now && time < now + SIX_MONTHS {
            recent_format()
        } else {
            distant_format()
        },
    }
}

/// Whether chrono accepts a strftime format string: whether
/// `StrftimeItems::parse` succeeds on it.
pub uninterp spec fn strftime_valid(fmt: Seq<char>) -> bool;

/// Whether chrono accepts a strftime format string
/// (`chrono::format::StrftimeItems::new(fmt).parse()`). Trusted: the
/// result is the named `strftime_valid` of the format.
#[verifier::external_body]
pub(crate) fn strftime_is_valid(fmt: &str) -> (ok: bool)
    ensures
        ok == strftime_valid(fmt@),
{
    chrono::format::StrftimeItems::new(fmt).parse().is_ok()
}

/// The earliest Unix timestamp that chrono represents: the first second of
/// January 1 of the year -262143, in UTC.
pub const EARLIEST_TIMESTAMP: i64 = -8334601228800;

/// The latest Unix timestamp that chrono represents: the last second of
/// December 31 of the year 262142, in UTC.
pub const LATEST_TIMESTAMP: i64 = 8210266876799;

/// Whether a timestamp in seconds is one that chrono can represent: whether
/// its day falls within chrono's range of dates, years -262143 to 262142.
pub open spec fn timestamp_representable(secs: int) -> bool {
    EARLIEST_TIMESTAMP <= secs <= LATEST_TIMESTAMP
}

/// The text that chrono's strftime formatting (`DateTime::format` with the
/// format `fmt`, then `to_string`) gives for the instant `secs` seconds and
/// `nanos` nanoseconds after the Unix epoch, seen at the fixed UTC offset of
/// `offset` seconds east.
pub uninterp spec fn strftime_text(secs: int, nanos: int, offset: int, fmt: Seq<char>) -> Seq<char>;

/// Whether `t` is the instant `secs` (a whole second) formatted with `fmt`
/// at some UTC offset that chrono accepts, less than a day either way.
pub open spec fn formatted_at(t: Seq<char>, secs: int, fmt: Seq<char>) -> bool {
    exists|offset: int| -86400 < offset < 86400 && t == #[trigger] strftime_text(secs, 0, offset, fmt)
}

/// Whether a format is one of the three built-in ones, whose specifiers
/// (`%b %e %H %M %S %Y`) chrono documents.
pub open spec fn builtin_format(fmt: Seq<char>) -> bool {
    fmt == full_format() || fmt == recent_format() || fmt == distant_format()
}

/// Whether a format holds no conversion specification: chrono splits such a
/// format into literal and space items that are written out as they stand.
pub open spec fn plain_format(fmt: Seq<char>) -> bool {
    !fmt.contains('%')
}

/// The shape of a time of the recent format (`%b %e %H:%M`): twelve ASCII
/// characters, the month name in three letters, then a space, the day in two
/// places, a space, and hours and minutes in two digits each around a colon.
pub open spec fn recent_shape(t: Seq<char>) -> bool {
    &&& is_ascii_chars(t)
    &&& t.len() == 12
    &&& t[3] == ' '
    &&& t[6] == ' '
    &&& t[9] == ':'
}

/// The shape of a time of the full format (`%b %e %H:%M:%S %Y`): ASCII, the
/// month name, day, hours, minutes and seconds in fixed places, then a space
/// and a year of at least four characters.
pub open spec fn full_shape(t: Seq<char>) -> bool {
    &&& is_ascii_chars(t)
    &&& t.len() >= 20
    &&& t[3] == ' '
    &&& t[6] == ' '
    &&& t[9] == ':'
    &&& t[12] == ':'
    &&& t[15] == ' '
}

/// The shape of a time of the distant format (`%b %e  %Y`): ASCII, the month
/// name and the day in fixed places, two spaces, then a year of at least
/// four characters.
pub open spec fn distant_shape(t: Seq<char>) -> bool {
    &&& is_ascii_chars(t)
    &&& t.len() >= 12
    &&& t[3] == ' '
    &&& t[6] == ' '
    &&& t[7] == ' '
}

/// What chrono's documentation and source give of a formatted time for the
/// format `fmt`, whatever the clock and the time zone: the shapes of the
/// three built-in formats, and a format without `%` written out as it
/// stands.
pub open spec fn formatted_as(t: Seq<char>, fmt: Seq<char>) -> bool {
    &&& (fmt == recent_format() ==> recent_shape(t))
    &&& (fmt == full_format() ==> full_shape(t))
    &&& (fmt == distant_format() ==> distant_shape(t))
    &&& (plain_format(fmt) ==> t == fmt)
}

/// Formats a Unix timestamp in the local time zone
/// (`Local.timestamp_opt(secs, 0).single()`, the same as
/// `DateTime::from_timestamp` taken to the local zone, then
/// `format(fmt).to_string()`). Trusted: the result is `Some` exactly for the
/// timestamps that chrono can represent (`timestamp_representable`:
/// `from_timestamp` refuses a day outside the range of `NaiveDate`);
/// it does not panic for a format that chrono accepts (`to_string` panics on
/// a rejected one, which `requires` leaves out); the text has the shape
/// `formatted_as` gives: chrono documents `%b` as always three letters (in
/// English, without the locale feature), `%e` as the day padded to two
/// places, `%H`, `%M` and `%S` as two digits, and writes `%Y` in at least
/// four characters (`write_year`); a format without `%` is written out
/// unchanged, as `StrftimeItems` turns it into literal and space items of its
/// own text. The text is the instant `secs` formatted at the local UTC offset
/// (`strftime_text`): `Local` formats as a `FixedOffset` of the offset its
/// time-zone data gives for that instant, which chrono keeps within a day
/// either way. Which offset that is depends on the machine's time zone and is
/// not stated.
#[verifier::external_body]
fn format_local_timestamp(secs: i64, fmt: &str) -> (r: Option<String>)
    requires
        builtin_format(fmt@) || strftime_valid(fmt@),
    ensures
        r is Some == timestamp_representable(secs as int),
        r matches Some(t) ==> formatted_as(t@, fmt@),
        r matches Some(t) ==> exists|offset: int|
            -86400 < offset < 86400 && t@ == #[trigger] strftime_text(secs as int, 0, offset, fmt@),
{
    let dt = chrono::Local.timestamp_opt(secs, 0).single()?;
    Some(dt.format(fmt).to_string())
}

/// Formats the current local time (`Local::now()`, then
/// `format(fmt).to_string()`), giving the text with the instant it shows in
/// seconds and nanoseconds after the epoch (`timestamp`,
/// `timestamp_subsec_nanos`). Trusted not to panic for a format that chrono
/// accepts; the text has the shape `formatted_as` gives, as for
/// `format_local_timestamp`, and is that instant formatted at the local UTC
/// offset (`strftime_text`). Which instant and offset these are depends on the
/// clock and the time zone and is not stated.
#[verifier::external_body]
fn format_local_now(fmt: &str) -> (r: (String, i64, u32))
    requires
        builtin_format(fmt@) || strftime_valid(fmt@),
    ensures
        formatted_as(r.0@, fmt@),
        r matches (t, secs, nanos) ==> exists|offset: int|
            -86400 < offset < 86400 && t@ == #[trigger] strftime_text(secs as int, nanos as int, offset, fmt@),
{
    let dt = chrono::Local::now();
    (dt.format(fmt).to_string(), dt.timestamp(), dt.timestamp_subsec_nanos())
}

/// The current Unix time (`Local::now().timestamp()`). Nothing is stated of
/// it: it depends on the clock.
#[verifier::external_body]
fn now_unix() -> i64 {
    chrono::Local::now().timestamp()
}

/// What holds of a time-column text under the options, whatever the clock
/// and the time zone: a `-D` format without `%` appears as it stands; with
/// `-T` the full shape; otherwise the recent or the distant shape.
pub open spec fn time_text_ok(t: Seq<char>, opts: Opts) -> bool {
    match opts.d_fmt {
        Some(f) => plain_format(f@) ==> t == f@,
        None => if opts.t_upper {
            full_shape(t)
        } else {
            recent_shape(t) || distant_shape(t)
        },
    }
}

/// What holds of the time-column text for `time` when the clock reads
/// `now`: it is `time` formatted at the local offset with the format
/// `time_format_for` picks for `now`; where chrono cannot represent `time`,
/// it is the current instant formatted with that format.
pub open spec fn time_text_at(t: Seq<char>, time: int, now: int, opts: Opts) -> bool {
    if timestamp_representable(time) {
        formatted_at(t, time, time_format_for(time, now, opts))
    } else {
        exists|secs: int, nanos: int, offset: int|
            -86400 < offset < 86400 && t == #[trigger] strftime_text(
                secs,
                nanos,
                offset,
                time_format_for(time, now, opts),
            )
    }
}

/// What holds of the time-column text for `time` whatever the clock and the
/// time zone: `time_text_at` for some reading `now` of the clock.
pub open spec fn time_text_for(t: Seq<char>, time: int, opts: Opts) -> bool {
    exists|now: int| #[trigger] time_text_at(t, time, now, opts)
}

/// The strftime format for a timestamp, given the current time.
pub fn select_time_format(time: i64, now: i64, opts: &Opts) -> (f: String)
    ensures
        f@ == time_format_for(time as int, now as int, *opts),
{
    match &opts.d_fmt {
        Some(f) => f.clone(),
        None => {
            let mut out: Vec<char> = Vec::new();
            let t = time as i128;
            let n = now as i128;
            let half = SIX_MONTHS as i128;
            if opts.t_upper {
                push_str(&mut out, "%b %e %H:%M:%S %Y");
            } else if t + half > n && t < n + half {
                push_str(&mut out, "%b %e %H:%M");
            } else {
                push_str(&mut out, "%b %e  %Y");
            }
            assert(out@ =~= time_format_for(time as int, now as int, *opts));
            string_from_chars(&out)
        },
    }
}

/// Formats a timestamp for the time column when the clock reads `now`, in
/// the local time zone, with the format that `select_time_format` picks for
/// `now`; a timestamp that chrono cannot represent shows the current time.
/// The text is `time` so formatted (`time_text_at`) and has the shape
/// `time_text_ok` gives; the local offset depends on the machine and is not
/// stated.
pub fn format_time_at(time: i64, now: i64, opts: &Opts) -> (s: String)
    requires
        opts.d_fmt matches Some(f) ==> strftime_valid(f@),
    ensures
        time_text_ok(s@, *opts),
        time_text_at(s@, time as int, now as int, *opts),
        opts.d_fmt is None && !opts.t_upper ==> if time + SIX_MONTHS > now && time < now + SIX_MONTHS {
            recent_shape(s@)
        } else {
            distant_shape(s@)
        },
        opts.d_fmt is None && opts.t_upper ==> full_shape(s@),
{
    let fmt = select_time_format(time, now, opts);
    assert(fmt@ == time_format_for(time as int, now as int, *opts));
    match format_local_timestamp(time, fmt.as_str()) {
        Some(s) => s,
        None => {
            let (text, secs, nanos) = format_local_now(fmt.as_str());
            proof {
                let offset = choose|offset: int|
                    -86400 < offset < 86400 && text@ == #[trigger] strftime_text(
                        secs as int,
                        nanos as int,
                        offset,
                        fmt@,
                    );
                assert(text@ == strftime_text(
                    secs as int,
                    nanos as int,
                    offset,
                    time_format_for(time as int, now as int, *opts),
                ));
            }
            text
        },
    }
}

/// Formats a timestamp for the time column, in the local time zone, with
/// the format that `select_time_format` picks for the current time read from
/// the clock; a timestamp that chrono cannot represent shows the current
/// time. The text is `time` so formatted (`time_text_for`) and has the shape
/// `time_text_ok` gives; the clock reading and the local offset depend on the
/// machine and are not stated.
pub fn format_time(time: i64, opts: &Opts) -> (s: String)
    requires
        opts.d_fmt matches Some(f) ==> strftime_valid(f@),
    ensures
        time_text_ok(s@, *opts),
        time_text_for(s@, time as int, *opts),
{
    let now = now_unix();
    format_time_at(time, now, opts)
}

} // verus!
