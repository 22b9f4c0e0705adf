//! Where the sources are fetched from: the addresses of the radar snapshot
//! and of the tide table for a given date.

use vstd::prelude::*;
use crate::text::{decimal, push_decimal};

verus! {

/// Forecast snapshots are published every three hours.
pub open spec fn run_hour(hour: nat) -> nat {
    (hour / 3 * 3) as nat
}

/// A year as `{:04}` writes it: zero-padded to four characters, a minus
/// sign counting as one.
pub open spec fn year_text(year: int) -> Seq<char> {
    if year >= 0 {
        decimal(year as nat, 4)
    } else {
        seq!['-'] + decimal((-year) as nat, 3)
    }
}

/// A year as chrono's `%Y` writes it: four digits within 0 to 9999, and
/// otherwise a sign followed by at least four digits.
pub open spec fn calendar_year_text(year: int) -> Seq<char> {
    if 0 <= year <= 9999 {
        decimal(year as nat, 4)
    } else if year > 9999 {
        seq!['+'] + decimal(year as nat, 4)
    } else {
        seq!['-'] + decimal((-year) as nat, 4)
    }
}

/// The magnitude of a year.
fn year_magnitude(year: i32) -> (r: u32)
    ensures
        r == if year >= 0 { year as int } else { -year },
{
    if year >= 0 {
        year as u32
    } else {
        (-(year as i64)) as u32
    }
}

/// The address of the marine forecast snapshot for a date and hour; the
/// hour is rounded down to the last three-hourly run.
pub open spec fn radar_url_spec(year: int, month: nat, day: nat, hour: nat) -> Seq<char> {
    "https://www.aemet.es//imagenes_d/eltiempo/prediccion/mod_maritima/"@ + year_text(year)
        + decimal(month, 2) + decimal(day, 2) + "00+0"@ + decimal(run_hour(hour), 2)
        + "_aewam_can_martot.png"@
}

pub fn radar_image_url(year: i32, month: u32, day: u32, hour: u32) -> (r: String)
    ensures
        r@ == radar_url_spec(year as int, month as nat, day as nat, hour as nat),
{
    proof {
        reveal_strlit("-");
    }
    let mut url = String::from_str(
        "https://www.aemet.es//imagenes_d/eltiempo/prediccion/mod_maritima/",
    );
    let ghost base = url@;
    if year >= 0 {
        push_decimal(&mut url, year_magnitude(year), 4);
    } else {
        url.append("-");
        push_decimal(&mut url, year_magnitude(year), 3);
    }
    assert(url@ =~= base + year_text(year as int));
    push_decimal(&mut url, month, 2);
    push_decimal(&mut url, day, 2);
    url.append("00+0");
    push_decimal(&mut url, hour / 3 * 3, 2);
    url.append("_aewam_can_martot.png");
    url
}

/// The address of the tide table for a date, written as chrono's `%Y%m%d`.
pub open spec fn tide_url_spec(year: int, month: nat, day: nat) -> Seq<char> {
    "https://ideihm.covam.es/api-ihm/getmarea?request=gettide&id=53&date="@ + calendar_year_text(
        year,
    ) + decimal(month, 2) + decimal(day, 2)
}

pub fn tide_table_url(year: i32, month: u32, day: u32) -> (r: String)
    requires
        1 <= month <= 12,
        1 <= day <= 31,
    ensures
        r@ == tide_url_spec(year as int, month as nat, day as nat),
{
    proof {
        reveal_strlit("-");
        reveal_strlit("+");
    }
    let mut url = String::from_str(
        "https://ideihm.covam.es/api-ihm/getmarea?request=gettide&id=53&date=",
    );
    let ghost base = url@;
    if year > 9999 {
        url.append("+");
    } else if year < 0 {
        url.append("-");
    }
    push_decimal(&mut url, year_magnitude(year), 4);
    assert(url@ =~= base + calendar_year_text(year as int));
    push_decimal(&mut url, month, 2);
    push_decimal(&mut url, day, 2);
    url
}

} // verus!
