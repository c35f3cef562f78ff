//! How large a window over the browser is.

use vstd::prelude::*;

verus! {

/// `percent` hundredths of `total`, but no less than `min`, no more than `max`, and never
/// more than `total`.
pub open spec fn clamped_percent(total: u16, percent: u16, min: u16, max: u16) -> u16 {
    if total == 0 {
        0
    } else {
        let product = total * percent;
        let share = (if product > u16::MAX {
            u16::MAX as int
        } else {
            product
        }) / 100;
        let clamped = if share < min {
            min as int
        } else if share > max {
            max as int
        } else {
            share
        };
        if clamped > total {
            total
        } else {
            clamped as u16
        }
    }
}

/// The share of `total` that a window takes which is to be `percent` hundredths of it,
/// between `min` and `max`.
pub fn clamp_percent(total: u16, percent: u16, min: u16, max: u16) -> (size: u16)
    requires
        min <= max,
    ensures
        size == clamped_percent(total, percent, min, max),
        size <= total,
{
    if total == 0 {
        return 0;
    }
    let product = match total.checked_mul(percent) {
        Some(product) => product,
        None => u16::MAX,
    };
    let percent_size = product / 100;
    let clamped = if percent_size < min {
        min
    } else if percent_size > max {
        max
    } else {
        percent_size
    };
    if clamped > total {
        total
    } else {
        clamped
    }
}

} // verus!
