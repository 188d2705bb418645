use vstd::prelude::*;

verus! {

/// What `time` renders, in RFC 2822 form, for a moment given in seconds since the
/// Unix epoch, seen at a UTC offset given in seconds; `None` where that moment or
/// offset cannot be represented or has no RFC 2822 form.
pub uninterp spec fn rfc2822_of(unix_seconds: int, offset_seconds: int) -> Option<Seq<char>>;

/// Relies on `time::OffsetDateTime::format` with the `Rfc2822` description; the
/// moment and the offset are built with `OffsetDateTime::from_unix_timestamp`,
/// `UtcOffset::from_whole_seconds` and `OffsetDateTime::checked_to_offset`, each of
/// which reports what it cannot represent instead of panicking.
#[verifier::external_body]
fn format_rfc2822(unix_seconds: i64, offset_seconds: i32) -> (r: Option<String>)
    ensures
        match r {
            Some(s) => rfc2822_of(unix_seconds as int, offset_seconds as int) == Some(s@),
            None => rfc2822_of(unix_seconds as int, offset_seconds as int) is None,
        },
{
    let t = time::OffsetDateTime::from_unix_timestamp(unix_seconds).ok()?;
    let offset = time::UtcOffset::from_whole_seconds(offset_seconds).ok()?;
    let local = t.checked_to_offset(offset)?;
    local.format(&time::format_description::well_known::Rfc2822).ok()
}

/// The time column's text for a formatting outcome: empty where none was had.
pub open spec fn time_field_of(formatted: Option<Seq<char>>) -> Seq<char> {
    match formatted {
        Some(s) => s,
        None => Seq::empty(),
    }
}

/// The time column's text for a modification time, if one was read.
pub open spec fn time_text_of(modified: Option<i64>, utc_offset_seconds: i32) -> Seq<char> {
    match modified {
        None => Seq::empty(),
        Some(t) => time_field_of(rfc2822_of(t as int, utc_offset_seconds as int)),
    }
}

/// Turns a formatting outcome into the time column's text.
pub fn time_field(formatted: Option<String>) -> (r: String)
    ensures
        r@ == time_field_of(
            match formatted {
                Some(s) => Some(s@),
                None => None,
            },
        ),
{
    match formatted {
        Some(s) => s,
        None => String::new(),
    }
}

/// Formats the time column of one entry: its modification time in RFC 2822 form
/// at the given UTC offset, or nothing where that time is missing or cannot be
/// rendered.
pub fn time_text(modified: Option<i64>, utc_offset_seconds: i32) -> (r: String)
    ensures
        r@ == time_text_of(modified, utc_offset_seconds),
{
    match modified {
        None => String::new(),
        Some(t) => time_field(format_rfc2822(t, utc_offset_seconds)),
    }
}

} // verus!
