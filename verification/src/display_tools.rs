use vstd::prelude::*;
use vstd::string::StringExecFns;
use crate::file_info::Timestamp;

verus! {

/// How strongly a value should be highlighted when it is shown.
#[derive(Debug, PartialEq, Eq, Clone, Copy, Structural)]
pub enum ColorCode {
    NoColor,
    Low,
    Medium,
    High,
}

/// Sizes below this many bytes are unremarkable.
pub const SIZE_MEDIUM_FROM: u64 = 90_000_000;

/// Sizes from this many bytes on are large.
pub const SIZE_HIGH_FROM: u64 = 900_000_000;

pub open spec fn size_color_code(size: u64) -> ColorCode {
    if size < SIZE_MEDIUM_FROM {
        ColorCode::Low
    } else if size < SIZE_HIGH_FROM {
        ColorCode::Medium
    } else {
        ColorCode::High
    }
}

pub fn get_size_color_code(size: u64) -> (code: ColorCode)
    ensures
        code == size_color_code(size),
{
    if size < SIZE_MEDIUM_FROM {
        ColorCode::Low
    } else if size < SIZE_HIGH_FROM {
        ColorCode::Medium
    } else {
        ColorCode::High
    }
}

/// Nanoseconds in one day.
pub const NANOS_PER_DAY: i128 = 86_400_000_000_000;

/// Changes less than this many days ago are recent.
pub const AGE_MEDIUM_FROM_DAYS: i128 = 14;

/// Changes this many days ago, or more, are old.
pub const AGE_HIGH_FROM_DAYS: i128 = 60;

/// The code for something last changed at `time`, seen at `now`. Nothing is said of a time
/// that is unknown or that lies after `now`.
pub open spec fn time_color_code(now: Timestamp, time: Option<Timestamp>) -> ColorCode {
    match time {
        None => ColorCode::NoColor,
        Some(changed) => {
            let age = now.total_nanos() - changed.total_nanos();
            if age < 0 {
                ColorCode::NoColor
            } else if age < AGE_MEDIUM_FROM_DAYS * NANOS_PER_DAY {
                ColorCode::Low
            } else if age < AGE_HIGH_FROM_DAYS * NANOS_PER_DAY {
                ColorCode::Medium
            } else {
                ColorCode::High
            }
        },
    }
}

pub fn get_time_color_code(now: &Timestamp, time: &Option<Timestamp>) -> (code: ColorCode)
    ensures
        code == time_color_code(*now, *time),
{
    match time {
        None => ColorCode::NoColor,
        Some(changed) => {
            let age: i128 = now.nanos_after_epoch() - changed.nanos_after_epoch();
            if age < 0 {
                ColorCode::NoColor
            } else if age < AGE_MEDIUM_FROM_DAYS * NANOS_PER_DAY {
                ColorCode::Low
            } else if age < AGE_HIGH_FROM_DAYS * NANOS_PER_DAY {
                ColorCode::Medium
            } else {
                ColorCode::High
            }
        },
    }
}

/// What `humansize::format_size` returns for `size` with the options `DECIMAL`: the size
/// in the largest decimal unit in which it is at least one, with up to two decimal places.
pub uninterp spec fn human_size(size: u64) -> Seq<char>;

/// `humansize::format_size` with the options `humansize::DECIMAL`: the size in words,
/// which depends on `size` alone.
#[verifier::external_body]
fn format_size(size: u64) -> (text: String)
    ensures
        text@ == human_size(size),
{
    humansize::format_size(size, humansize::DECIMAL)
}

/// A size as it is shown: in words, and with the code by which it is highlighted.
pub fn size_label(size: u64) -> (label: (String, ColorCode))
    ensures
        label.0@ == human_size(size),
        label.1 == size_color_code(size),
{
    (format_size(size), get_size_color_code(size))
}

/// A size that may be unknown as it is shown: in words, or `missing` in its place.
pub fn size_text_or(size: Option<u64>, missing: &str) -> (text: String)
    ensures
        text@ == match size {
            Some(bytes) => human_size(bytes),
            None => missing@,
        },
{
    match size {
        Some(bytes) => format_size(bytes),
        None => String::from_str(missing),
    }
}

} // verus!
