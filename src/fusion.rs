//! Fusion of independently fallible sources into one snapshot: each source
//! that did not complete in time, or failed, leaves its own field empty and
//! touches nothing else.

use vstd::prelude::*;
use crate::moon::{moon_age, moon_age_spec};
use crate::radar::RadarIntensity;
use crate::tides::Tide;

verus! {

/// How one source fetch settled.
#[derive(Debug)]
pub enum SourceOutcome<T> {
    /// Completed within its timeout.
    Ready(T),
    /// Completed with an error, given as text.
    Failed(String),
    /// Did not complete within its timeout, and was abandoned.
    TimedOut,
}

/// What a settled source contributes: its value if it completed.
pub open spec fn settled<T>(o: SourceOutcome<T>) -> Option<T> {
    match o {
        SourceOutcome::Ready(v) => Some(v),
        _ => None,
    }
}

/// Collapses an outcome to presence or absence; the reason for an absence
/// is not kept.
pub fn settle<T>(o: SourceOutcome<T>) -> (r: Option<T>)
    ensures
        r == settled(o),
{
    match o {
        SourceOutcome::Ready(v) => Some(v),
        _ => None,
    }
}

/// The short statistics: the tide window, if it could be had, and the day of
/// the lunar cycle.
#[derive(Debug)]
pub struct Stats {
    pub tides: Option<(Tide, Tide)>,
    pub moon_age: u32,
}

/// The statistics from the tide source's outcome and today's date.
pub fn build_stats(tides: SourceOutcome<(Tide, Tide)>, year: i32, month: u32, day: u32) -> (r:
    Stats)
    requires
        month <= 12,
        day <= 31,
    ensures
        r.tides == settled(tides),
        r.moon_age == moon_age_spec(year as int, month as int, day as int),
        r.moon_age < 30,
{
    Stats { tides: settle(tides), moon_age: moon_age(year, month, day) }
}

/// The fused snapshot; each field is present exactly when its source
/// completed.
#[derive(Debug)]
pub struct KindleDisplayData<W> {
    pub short_stats: Option<Stats>,
    pub weather: Option<W>,
    pub image: Option<RadarIntensity>,
}

pub open spec fn assembled<W>(
    short_stats: SourceOutcome<Stats>,
    weather: SourceOutcome<W>,
    image: SourceOutcome<RadarIntensity>,
) -> KindleDisplayData<W> {
    KindleDisplayData {
        short_stats: settled(short_stats),
        weather: settled(weather),
        image: settled(image),
    }
}

/// Joins the settled sources into one snapshot; it never fails.
pub fn assemble<W>(
    short_stats: SourceOutcome<Stats>,
    weather: SourceOutcome<W>,
    image: SourceOutcome<RadarIntensity>,
) -> (r: KindleDisplayData<W>)
    ensures
        r == assembled(short_stats, weather, image),
{
    KindleDisplayData {
        short_stats: settle(short_stats),
        weather: settle(weather),
        image: settle(image),
    }
}

pub open spec fn failed_count<W>(
    short_stats: SourceOutcome<Stats>,
    weather: SourceOutcome<W>,
    image: SourceOutcome<RadarIntensity>,
) -> int {
    (if short_stats is Ready { 0int } else { 1int }) + (if weather is Ready { 0int } else { 1int })
        + (if image is Ready { 0int } else { 1int })
}

pub open spec fn missing_count<W>(d: KindleDisplayData<W>) -> int {
    (if d.short_stats is Some { 0int } else { 1int }) + (if d.weather is Some { 0int } else { 1int })
        + (if d.image is Some { 0int } else { 1int })
}

/// Failures stay apart: a field is missing exactly when its own source
/// failed or timed out, so the snapshot misses as many fields as sources
/// failed; one failing source among succeeding ones empties its field alone.
pub proof fn lemma_failures_isolated<W>(
    short_stats: SourceOutcome<Stats>,
    weather: SourceOutcome<W>,
    image: SourceOutcome<RadarIntensity>,
)
    ensures
        ({
            let d = assembled(short_stats, weather, image);
            &&& (d.short_stats is None <==> !(short_stats is Ready))
            &&& (d.weather is None <==> !(weather is Ready))
            &&& (d.image is None <==> !(image is Ready))
            &&& missing_count(d) == failed_count(short_stats, weather, image)
        }),
{
}

} // verus!
