//! Tide tables: parsing the tab-separated table into events, and selecting
//! the two events that bracket a reference time.

use vstd::prelude::*;
use crate::text::{split_on, split_spec, trim, trim_spec, same_text, views_of};

verus! {

/// A time of day as chrono's `NaiveTime` holds it: whole seconds since
/// midnight and a fraction in nanoseconds.
#[derive(Clone, Copy, Debug, PartialEq, Eq, Structural)]
pub struct TimeOfDay {
    pub secs: u32,
    pub frac: u32,
}

impl TimeOfDay {
    /// The chronological order: seconds first, then the fraction.
    pub open spec fn at_or_before(self, other: TimeOfDay) -> bool {
        self.secs < other.secs || (self.secs == other.secs && self.frac <= other.frac)
    }

    pub fn is_at_or_before(&self, other: &TimeOfDay) -> (r: bool)
        ensures
            r == self.at_or_before(*other),
    {
        self.secs < other.secs || (self.secs == other.secs && self.frac <= other.frac)
    }

    /// The time `h:m:s`, where that names a time of day.
    pub fn from_hms(h: u32, m: u32, s: u32) -> (r: Option<TimeOfDay>)
        ensures
            r is Some <==> (h < 24 && m < 60 && s < 60),
            r matches Some(t) ==> t.secs == h * 3600 + m * 60 + s && t.frac == 0,
    {
        if h < 24 && m < 60 && s < 60 {
            Some(TimeOfDay { secs: h * 3600 + m * 60 + s, frac: 0 })
        } else {
            None
        }
    }
}

/// What chrono's `NaiveTime::from_str` makes of a text: seconds since
/// midnight and nanoseconds, or `None` where it refuses the text.
pub uninterp spec fn naive_time_of(s: Seq<char>) -> Option<(u32, u32)>;

/// Relies on chrono's `FromStr for NaiveTime` (`HH:MM`, optionally `:SS` and a
/// fraction): the outcome depends on the text alone.
#[verifier::external_body]
fn parse_naive_time(s: &str) -> (r: Option<TimeOfDay>)
    ensures
        r == (match naive_time_of(s@) {
            Some((secs, frac)) => Some(TimeOfDay { secs, frac }),
            None => None,
        }),
{
    match <chrono::NaiveTime as std::str::FromStr>::from_str(s) {
        Ok(t) => Some(
            TimeOfDay {
                secs: chrono::Timelike::num_seconds_from_midnight(&t),
                frac: chrono::Timelike::nanosecond(&t),
            },
        ),
        Err(_) => None,
    }
}

/// Whether the water is at its lowest or at its highest.
#[derive(Clone, Copy, Debug, PartialEq, Eq, Structural)]
pub enum TideKind {
    Low,
    High,
}

/// A tide event, carrying the time text as the table wrote it.
#[derive(Clone, Debug, PartialEq, Eq)]
pub enum Tide {
    Low(String),
    High(String),
}

impl View for Tide {
    type V = (TideKind, Seq<char>);

    open spec fn view(&self) -> (TideKind, Seq<char>) {
        match self {
            Tide::Low(t) => (TideKind::Low, t@),
            Tide::High(t) => (TideKind::High, t@),
        }
    }
}

/// Why a table line is not a tide event.
#[derive(Clone, Copy, Debug, PartialEq, Eq, Structural)]
pub enum LineError {
    /// Fewer than three tab-separated fields.
    TooFewFields,
    /// The third field is neither `bajamar` nor `pleamar`.
    UnknownKind,
}

/// The kind that a table token names.
pub open spec fn kind_of_token(t: Seq<char>) -> Option<TideKind> {
    if t == "bajamar"@ {
        Some(TideKind::Low)
    } else if t == "pleamar"@ {
        Some(TideKind::High)
    } else {
        None
    }
}

fn token_kind(t: &str) -> (r: Option<TideKind>)
    ensures
        r == kind_of_token(t@),
{
    if same_text(t, "bajamar") {
        Some(TideKind::Low)
    } else if same_text(t, "pleamar") {
        Some(TideKind::High)
    } else {
        None
    }
}

/// The tide that a table line names, with its time text left unparsed.
pub open spec fn line_tide(line: Seq<char>) -> Result<(TideKind, Seq<char>), LineError> {
    let f = split_spec(line, '\t');
    if f.len() < 3 {
        Err(LineError::TooFewFields)
    } else {
        match kind_of_token(trim_spec(f[2])) {
            Some(k) => Ok((k, f[0])),
            None => Err(LineError::UnknownKind),
        }
    }
}

impl Tide {
    pub fn duplicate(&self) -> (r: Tide)
        ensures
            r@ == self@,
    {
        match self {
            Tide::Low(t) => Tide::Low(t.clone()),
            Tide::High(t) => Tide::High(t.clone()),
        }
    }

    /// Reads a table line: time in the first field, `bajamar` (low) or
    /// `pleamar` (high) in the third, white space around it ignored.
    pub fn try_from(line: &str) -> (r: Result<Tide, LineError>)
        ensures
            match r {
                Ok(t) => line_tide(line@) == Ok::<(TideKind, Seq<char>), LineError>(t@),
                Err(e) => line_tide(line@) == Err::<(TideKind, Seq<char>), LineError>(e),
            },
    {
        let parts = split_on(line, '\t');
        proof {
            assert(views_of(parts@).len() == parts@.len());
        }
        if parts.len() < 3 {
            return Err(LineError::TooFewFields);
        }
        assert(parts@[0]@ == split_spec(line@, '\t')[0]);
        assert(parts@[2]@ == split_spec(line@, '\t')[2]);
        let time = parts[0].clone();
        match token_kind(trim(parts[2].as_str())) {
            Some(TideKind::Low) => Ok(Tide::Low(time)),
            Some(TideKind::High) => Ok(Tide::High(time)),
            None => Err(LineError::UnknownKind),
        }
    }
}

/// A tide event with its parsed time.
#[derive(Clone, Debug, PartialEq, Eq)]
pub struct TideEntry {
    pub time: TimeOfDay,
    pub tide: Tide,
}

impl View for TideEntry {
    type V = (TimeOfDay, (TideKind, Seq<char>));

    open spec fn view(&self) -> (TimeOfDay, (TideKind, Seq<char>)) {
        (self.time, self.tide@)
    }
}

pub open spec fn entry_views(v: Seq<TideEntry>) -> Seq<(TimeOfDay, (TideKind, Seq<char>))> {
    v.map_values(|e: TideEntry| e@)
}

/// The event that a table line describes, if it describes one: a time that
/// chrono reads in the first field, and a known kind token in the third.
pub open spec fn line_entry(line: Seq<char>) -> Option<(TimeOfDay, (TideKind, Seq<char>))> {
    let f = split_spec(line, '\t');
    if f.len() < 3 {
        None
    } else {
        match (naive_time_of(f[0]), kind_of_token(trim_spec(f[2]))) {
            (Some((secs, frac)), Some(k)) => Some((TimeOfDay { secs, frac }, (k, f[0]))),
            _ => None,
        }
    }
}

/// The events of the lines that describe one, in order.
pub open spec fn entries_of(lines: Seq<Seq<char>>) -> Seq<(TimeOfDay, (TideKind, Seq<char>))>
    decreases lines.len(),
{
    if lines.len() == 0 {
        Seq::empty()
    } else {
        let prev = entries_of(lines.drop_last());
        match line_entry(lines.last()) {
            Some(e) => prev.push(e),
            None => prev,
        }
    }
}

/// Reads one table line; a line of any other shape gives `None`.
pub fn parse_line(line: &str) -> (r: Option<TideEntry>)
    ensures
        match r {
            Some(e) => line_entry(line@) == Some(e@),
            None => line_entry(line@) is None,
        },
{
    let parts = split_on(line, '\t');
    proof {
        assert(views_of(parts@).len() == parts@.len());
    }
    if parts.len() < 3 {
        return None;
    }
    assert(parts@[0]@ == split_spec(line@, '\t')[0]);
    assert(parts@[2]@ == split_spec(line@, '\t')[2]);
    let time = match parse_naive_time(parts[0].as_str()) {
        Some(t) => t,
        None => return None,
    };
    let text = parts[0].clone();
    let tide = match token_kind(trim(parts[2].as_str())) {
        Some(TideKind::Low) => Tide::Low(text),
        Some(TideKind::High) => Tide::High(text),
        None => return None,
    };
    Some(TideEntry { time, tide })
}

/// Reads a whole table, one event per line that describes one.
pub fn parse_table(data: &str) -> (r: Vec<TideEntry>)
    ensures
        entry_views(r@) == entries_of(split_spec(data@, '\n')),
{
    let lines = split_on(data, '\n');
    let ghost lv = views_of(lines@);
    let mut out: Vec<TideEntry> = Vec::new();
    let mut i: usize = 0;
    assert(lv.subrange(0, 0) =~= Seq::<Seq<char>>::empty());
    assert(entry_views(out@) =~= Seq::<(TimeOfDay, (TideKind, Seq<char>))>::empty());
    while i < lines.len()
        invariant
            lv == views_of(lines@),
            i <= lines.len(),
            entry_views(out@) == entries_of(lv.subrange(0, i as int)),
        decreases lines.len() - i,
    {
        assert(lv.subrange(0, i + 1).drop_last() =~= lv.subrange(0, i as int));
        assert(lv.subrange(0, i + 1).last() == lines@[i as int]@);
        let ghost before = out@;
        match parse_line(lines[i].as_str()) {
            Some(e) => {
                out.push(e);
                assert(entry_views(out@) =~= entry_views(before).push(e@));
            },
            None => {},
        }
        i += 1;
    }
    assert(lv.subrange(0, lines.len() as int) =~= lv);
    out
}

/// Why no tide window can be given.
#[derive(Clone, Copy, Debug, PartialEq, Eq, Structural)]
pub enum TideError {
    /// Fewer than two events.
    NotEnoughData,
}

/// The index of the last of the first `n` times that is at or before `now`,
/// or -1 where there is none.
pub open spec fn last_at_or_before(times: Seq<TimeOfDay>, now: TimeOfDay, n: int) -> int
    decreases n,
{
    if n <= 0 {
        -1
    } else if times[n - 1].at_or_before(now) {
        n - 1
    } else {
        last_at_or_before(times, now, n - 1)
    }
}

/// The indices of the two events that bracket `now`: the first two where
/// `now` comes before every event; otherwise the last event at or before
/// `now` and the one after it; the last two where nothing comes after `now`.
pub open spec fn window(times: Seq<TimeOfDay>, now: TimeOfDay) -> (int, int) {
    if !times[0].at_or_before(now) {
        (0, 1)
    } else {
        let i = last_at_or_before(times, now, times.len() as int);
        if i < 0 {
            (0, 1)
        } else if i + 1 < times.len() {
            (i, i + 1)
        } else {
            (times.len() - 2, times.len() - 1)
        }
    }
}

pub open spec fn times_of(v: Seq<(TimeOfDay, (TideKind, Seq<char>))>) -> Seq<TimeOfDay> {
    v.map_values(|e: (TimeOfDay, (TideKind, Seq<char>))| e.0)
}

/// The window over a sequence of events, as the pair of their tides.
pub open spec fn window_tides(v: Seq<(TimeOfDay, (TideKind, Seq<char>))>, now: TimeOfDay) -> Result<
    ((TideKind, Seq<char>), (TideKind, Seq<char>)),
    TideError,
> {
    if v.len() < 2 {
        Err(TideError::NotEnoughData)
    } else {
        let (p, q) = window(times_of(v), now);
        Ok((v[p].1, v[q].1))
    }
}

pub open spec fn pair_view(r: Result<(Tide, Tide), TideError>) -> Result<
    ((TideKind, Seq<char>), (TideKind, Seq<char>)),
    TideError,
> {
    match r {
        Ok((a, b)) => Ok((a@, b@)),
        Err(e) => Err(e),
    }
}

proof fn lemma_last_at_or_before(times: Seq<TimeOfDay>, now: TimeOfDay, n: int)
    requires
        0 <= n <= times.len(),
    ensures
        -1 <= last_at_or_before(times, now, n) < n,
        last_at_or_before(times, now, n) >= 0 ==> times[last_at_or_before(
            times,
            now,
            n,
        )].at_or_before(now),
        forall|j: int|
            last_at_or_before(times, now, n) < j < n ==> !(#[trigger] times[j]).at_or_before(now),
    decreases n,
{
    if n > 0 {
        lemma_last_at_or_before(times, now, n - 1);
    }
}

/// Selects the two events that bracket `ref_time` (see `window`).
pub fn get_two_tides(tides: &[TideEntry], ref_time: TimeOfDay) -> (r: Result<(Tide, Tide), TideError>)
    ensures
        pair_view(r) == window_tides(entry_views(tides@), ref_time),
{
    let ghost v = entry_views(tides@);
    let ghost times = times_of(v);
    let n = tides.len();
    if n < 2 {
        return Err(TideError::NotEnoughData);
    }
    assert(times.len() == n);
    assert(forall|k: int| 0 <= k < n ==> times[k] == (#[trigger] tides@[k]).time);
    if !tides[0].time.is_at_or_before(&ref_time) {
        return Ok((tides[0].tide.duplicate(), tides[1].tide.duplicate()));
    }
    let mut k: usize = n;
    while k > 0 && !tides[k - 1].time.is_at_or_before(&ref_time)
        invariant
            n == tides@.len(),
            times == times_of(entry_views(tides@)),
            times.len() == n,
            forall|k: int| 0 <= k < n ==> times[k] == (#[trigger] tides@[k]).time,
            k <= n,
            last_at_or_before(times, ref_time, n as int) == last_at_or_before(
                times,
                ref_time,
                k as int,
            ),
        decreases k,
    {
        k -= 1;
    }
    if k == 0 {
        Ok((tides[0].tide.duplicate(), tides[1].tide.duplicate()))
    } else if k < n {
        Ok((tides[k - 1].tide.duplicate(), tides[k].tide.duplicate()))
    } else {
        Ok((tides[n - 2].tide.duplicate(), tides[n - 1].tide.duplicate()))
    }
}

/// The tide window of a whole table at `now`.
pub fn two_tides_from_table(data: &str, now: TimeOfDay) -> (r: Result<(Tide, Tide), TideError>)
    ensures
        pair_view(r) == window_tides(entries_of(split_spec(data@, '\n')), now),
{
    let entries = parse_table(data);
    get_two_tides(entries.as_slice(), now)
}

/// Events sorted by time.
pub open spec fn sorted_times(t: Seq<TimeOfDay>) -> bool {
    forall|a: int, b: int| 0 <= a <= b < t.len() ==> (#[trigger] t[a]).at_or_before(#[trigger] t[b])
}

/// Over events sorted by time, the window is two neighbouring events in
/// order; it is the first two where `now` precedes every event, and
/// otherwise its first event is at or before `now`; where some event comes
/// after `now`, so does its second.
pub proof fn lemma_window_brackets(times: Seq<TimeOfDay>, now: TimeOfDay)
    requires
        times.len() >= 2,
        sorted_times(times),
    ensures
        ({
            let (p, q) = window(times, now);
            &&& 0 <= p && q == p + 1 && q < times.len()
            &&& times[p].at_or_before(times[q])
            &&& !times[0].at_or_before(now) ==> p == 0 && q == 1
            &&& times[0].at_or_before(now) ==> times[p].at_or_before(now)
            &&& !times[times.len() - 1].at_or_before(now) ==> !times[q].at_or_before(now)
        }),
{
    let n = times.len() as int;
    lemma_last_at_or_before(times, now, n);
    let (p, q) = window(times, now);
    assert(times[p].at_or_before(times[q]));
    if times[0].at_or_before(now) {
        let i = last_at_or_before(times, now, n);
        assert(i >= 0) by {
            if i < 0 {
                assert(!times[0].at_or_before(now));
            }
        }
        if i + 1 >= n {
            assert(times[n - 2].at_or_before(times[n - 1]));
        }
    }
}

} // verus!
