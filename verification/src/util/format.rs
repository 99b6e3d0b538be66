//! Human-readable distance text: a rounding ladder from exact meter counts
//! at short range up to coarse kilometer or mile counts at long range.

use crate::decimal::{dec_digits, format_scaled, format_u64, spec_format_scaled};
use crate::util::div_round;
use crate::MeasurementSystem;
use vstd::prelude::*;

verus! {

/// Division rounding halves up, in the executable world.
fn rounded_div(a: u64, b: u64) -> (r: u64)
    requires
        0 < b <= 100000000,
        a <= 1000000000000000000,
    ensures
        r == div_round(a as int, b as int),
{
    (2 * a + b) / (2 * b)
}

/// The spoken metric ladder: exact meters up close, tens then hundreds of
/// meters, then kilometers with one digit, then whole kilometers.
pub open spec fn spec_format_metric(mm: int) -> Seq<char> {
    if mm < 1500 {
        "1 meter"@
    } else if mm < 10000 {
        dec_digits(div_round(mm, 1000) as nat) + " meters"@
    } else if mm < 500000 {
        dec_digits((div_round(mm, 10000) * 10) as nat) + " meters"@
    } else if mm < 950000 {
        dec_digits((div_round(mm, 100000) * 100) as nat) + " meters"@
    } else if mm < 1050000 {
        "1 kilometer"@
    } else if mm < 9950000 {
        spec_format_scaled(div_round(mm, 100000), 1) + " kilometers"@
    } else {
        dec_digits(div_round(mm, 1000000) as nat) + " kilometers"@
    }
}

/// The spoken imperial ladder: feet in tens then hundreds, the two idiomatic
/// fractions, then miles with one digit, then whole miles.
pub open spec fn spec_format_imperial(mm: int) -> Seq<char> {
    if mm < 201168 {
        let feet = spec_feet(mm);
        dec_digits(feet as nat) + " feet"@
    } else if mm < 603503 {
        "a quarter mile"@
    } else if mm < 1005838 {
        "a half mile"@
    } else if 1528873 <= mm < 1770274 {
        "1 mile"@
    } else if mm < 16012933 {
        spec_format_scaled(div_round(mm, 160934), 1) + " miles"@
    } else {
        dec_digits(div_round(mm, 1609340) as nat) + " miles"@
    }
}

/// Feet rounded to the nearest ten, to the nearest hundred above two
/// hundred, and never below ten.
pub open spec fn spec_feet(mm: int) -> int {
    let tens = div_round(mm, 3048);
    let feet = if tens * 10 > 200 {
        div_round(tens, 10) * 100
    } else {
        tens * 10
    };
    if feet < 10 {
        10
    } else {
        feet
    }
}

pub open spec fn spec_format_meters(mm: int, output_system: MeasurementSystem) -> Seq<char> {
    match output_system {
        MeasurementSystem::Metric => spec_format_metric(mm),
        MeasurementSystem::Imperial => spec_format_imperial(mm),
    }
}

/// Writes a distance, given in millimeters, the way it would be spoken in
/// the requested measurement system.
pub fn format_meters(meters_mm: u64, output_system: MeasurementSystem) -> (r: String)
    requires
        meters_mm <= 1000000000000000,
    ensures
        r@ == spec_format_meters(meters_mm as int, output_system),
{
    match output_system {
        MeasurementSystem::Metric => {
            if meters_mm < 1500 {
                String::from_str("1 meter")
            } else if meters_mm < 10000 {
                let mut s = format_u64(rounded_div(meters_mm, 1000));
                s.append(" meters");
                s
            } else if meters_mm < 500000 {
                let mut s = format_u64(rounded_div(meters_mm, 10000) * 10);
                s.append(" meters");
                s
            } else if meters_mm < 950000 {
                let mut s = format_u64(rounded_div(meters_mm, 100000) * 100);
                s.append(" meters");
                s
            } else if meters_mm < 1050000 {
                String::from_str("1 kilometer")
            } else if meters_mm < 9950000 {
                let tenths = rounded_div(meters_mm, 100000);
                let mut s = format_scaled(tenths as i64, 1);
                s.append(" kilometers");
                s
            } else {
                let mut s = format_u64(rounded_div(meters_mm, 1000000));
                s.append(" kilometers");
                s
            }
        },
        MeasurementSystem::Imperial => {
            if meters_mm < 201168 {
                let tens = rounded_div(meters_mm, 3048);
                let feet = if tens * 10 > 200 {
                    rounded_div(tens, 10) * 100
                } else {
                    tens * 10
                };
                let feet = if feet < 10 {
                    10
                } else {
                    feet
                };
                let mut s = format_u64(feet);
                s.append(" feet");
                s
            } else if meters_mm < 603503 {
                String::from_str("a quarter mile")
            } else if meters_mm < 1005838 {
                String::from_str("a half mile")
            } else if 1528873 <= meters_mm && meters_mm < 1770274 {
                String::from_str("1 mile")
            } else if meters_mm < 16012933 {
                let tenths = rounded_div(meters_mm, 160934);
                let mut s = format_scaled(tenths as i64, 1);
                s.append(" miles");
                s
            } else {
                let mut s = format_u64(rounded_div(meters_mm, 1609340));
                s.append(" miles");
                s
            }
        },
    }
}

} // verus!
