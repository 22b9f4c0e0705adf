//! Filling the dashboard's SVG template: named slots take text, image tags
//! take inline markup, and the radar raster is embedded as a data URL.

use vstd::prelude::*;
use crate::fusion::{KindleDisplayData, Stats};
use crate::moon::{moon_icon_index, nearest_phase};
use crate::pattern::{compile, escape_meta, regex_compiles, regex_escaped, regex_replaced, replace_matches};
use crate::radar::RadarIntensity;
use crate::text::{decimal, push_decimal, replace_text, replaced};
use crate::tides::{Tide, TideKind};

verus! {

/// A pattern for an `<image ...>` tag whose `href` is exactly `href`.
pub open spec fn image_tag_pattern(href: Seq<char>) -> Seq<char> {
    "<image\\b[^>]*?\\bhref\\s*=\\s*\""@ + regex_escaped(href) + "\"[^>]*/?>"@
}

/// `template` with each image tag that refers to `href` replaced.
pub open spec fn image_replaced(template: Seq<char>, href: Seq<char>, rep: Seq<char>) -> Seq<char> {
    if regex_compiles(image_tag_pattern(href)) {
        regex_replaced(image_tag_pattern(href), template, rep)
    } else {
        template
    }
}

/// Replaces every `<image>` tag whose `href` is exactly `href` by
/// `tag_replacement`. Where the pattern is beyond the regex engine's limits,
/// the template comes back unchanged.
pub fn replace_image(template: String, href: &str, tag_replacement: &str) -> (r: String)
    ensures
        r@ == image_replaced(template@, href@, tag_replacement@),
{
    let mut pattern = String::from_str("<image\\b[^>]*?\\bhref\\s*=\\s*\"");
    let escaped = escape_meta(href);
    pattern.append(escaped.as_str());
    pattern.append("\"[^>]*/?>");
    match compile(pattern.as_str()) {
        Some(re) => replace_matches(&re, template.as_str(), tag_replacement),
        None => template,
    }
}

/// The label of a tide kind on the dashboard.
pub open spec fn kind_label(k: TideKind) -> Seq<char> {
    match k {
        TideKind::High => "Pleamar"@,
        TideKind::Low => "Bajamar"@,
    }
}

fn tide_label(t: &Tide) -> (r: &'static str)
    ensures
        r@ == kind_label(t@.0),
{
    match t {
        Tide::High(_) => "Pleamar",
        Tide::Low(_) => "Bajamar",
    }
}

fn tide_time(t: &Tide) -> (r: &str)
    ensures
        r@ == t@.1,
{
    match t {
        Tide::High(time) => time.as_str(),
        Tide::Low(time) => time.as_str(),
    }
}

pub open spec fn stats_view(s: Option<Stats>) -> Option<
    (Option<((TideKind, Seq<char>), (TideKind, Seq<char>))>, u32),
> {
    match s {
        Some(st) => Some(
            (
                match st.tides {
                    Some((a, b)) => Some((a@, b@)),
                    None => None,
                },
                st.moon_age,
            ),
        ),
        None => None,
    }
}

/// The template with the statistics slots filled: the two tides' labels and
/// times ("NA" without a tide window), and the moon icon in place of the
/// first phase's image; every slot reads "ERR" without statistics.
pub open spec fn stats_filled(
    template: Seq<char>,
    stats: Option<(Option<((TideKind, Seq<char>), (TideKind, Seq<char>))>, u32)>,
    icons: Seq<Seq<char>>,
) -> Seq<char> {
    match stats {
        Some((tides, age)) => {
            let (k1, t1, k2, t2) = match tides {
                Some((a, b)) => (kind_label(a.0), a.1, kind_label(b.0), b.1),
                None => ("NA"@, "NA"@, "NA"@, "NA"@),
            };
            let s = replaced(
                replaced(replaced(replaced(template, "#I1a"@, k1), "#I1b"@, t1), "#I2a"@, k2),
                "#I2b"@,
                t2,
            );
            image_replaced(s, "moon/1.svg"@, icons[nearest_phase(age as int)])
        },
        None => replaced(
            replaced(
                replaced(
                    replaced(
                        replaced(replaced(template, "#I1"@, "ERR"@), "#I2"@, "ERR"@),
                        "#I3"@,
                        "ERR"@,
                    ),
                    "#I4"@,
                    "ERR"@,
                ),
                "#I5"@,
                "ERR"@,
            ),
            "#I6"@,
            "ERR"@,
        ),
    }
}

/// Fills the statistics slots of the template; `moon_icons` holds the
/// markup of the eight phase icons, from the new moon on.
pub fn format_stats<W>(template: String, data: &KindleDisplayData<W>, moon_icons: &Vec<String>) -> (r:
    String)
    requires
        moon_icons@.len() == 8,
        data.short_stats matches Some(s) ==> s.moon_age < 30,
    ensures
        r@ == stats_filled(
            template@,
            stats_view(data.short_stats),
            moon_icons@.map_values(|i: String| i@),
        ),
{
    proof {
        reveal_strlit("#I1a");
        reveal_strlit("#I1b");
        reveal_strlit("#I2a");
        reveal_strlit("#I2b");
        reveal_strlit("#I1");
        reveal_strlit("#I2");
        reveal_strlit("#I3");
        reveal_strlit("#I4");
        reveal_strlit("#I5");
        reveal_strlit("#I6");
    }
    match &data.short_stats {
        Some(short_stats) => {
            let (k1, t1, k2, t2) = match &short_stats.tides {
                Some((first, second)) => (
                    tide_label(first),
                    tide_time(first),
                    tide_label(second),
                    tide_time(second),
                ),
                None => ("NA", "NA", "NA", "NA"),
            };
            let s = replace_text(template.as_str(), "#I1a", k1);
            let s = replace_text(s.as_str(), "#I1b", t1);
            let s = replace_text(s.as_str(), "#I2a", k2);
            let s = replace_text(s.as_str(), "#I2b", t2);
            let k = moon_icon_index(short_stats.moon_age);
            replace_image(s, "moon/1.svg", moon_icons[k].as_str())
        },
        None => {
            let s = replace_text(template.as_str(), "#I1", "ERR");
            let s = replace_text(s.as_str(), "#I2", "ERR");
            let s = replace_text(s.as_str(), "#I3", "ERR");
            let s = replace_text(s.as_str(), "#I4", "ERR");
            let s = replace_text(s.as_str(), "#I5", "ERR");
            replace_text(s.as_str(), "#I6", "ERR")
        },
    }
}

/// What the `image` crate's PNG encoder makes of a grey raster, or `None`
/// where encoding fails.
pub uninterp spec fn png_encoding(width: u32, height: u32, pixels: Seq<u8>) -> Option<Seq<u8>>;

/// Relies on `image::GrayImage::from_raw` and `DynamicImage::write_to` with
/// `ImageFormat::Png`: the bytes depend on the raster alone. The PNG encoder
/// panics unless there are exactly `width * height` pixels, hence `wf`.
#[verifier::external_body]
fn encode_png(img: &RadarIntensity) -> (r: Option<Vec<u8>>)
    requires
        img.wf(),
    ensures
        match r {
            Some(b) => png_encoding(img.width, img.height, img.data@) == Some(b@),
            None => png_encoding(img.width, img.height, img.data@) is None,
        },
{
    let buffer = image::GrayImage::from_raw(img.width, img.height, img.data.clone())?;
    let mut out = std::io::Cursor::new(Vec::new());
    match image::DynamicImage::ImageLuma8(buffer).write_to(&mut out, image::ImageFormat::Png) {
        Ok(()) => Some(out.into_inner()),
        Err(_) => None,
    }
}

/// The character of the standard base64 alphabet for a six-bit value.
pub open spec fn base64_char(v: int) -> char {
    "ABCDEFGHIJKLMNOPQRSTUVWXYZabcdefghijklmnopqrstuvwxyz0123456789+/"@[v]
}

/// Standard base64 with padding: each three bytes become four characters of
/// six bits each, and a last group of one or two bytes is padded with `=`.
pub open spec fn base64_of(b: Seq<u8>) -> Seq<char>
    decreases b.len(),
{
    let b0 = if b.len() > 0 { b[0] as int } else { 0 };
    let b1 = if b.len() > 1 { b[1] as int } else { 0 };
    let b2 = if b.len() > 2 { b[2] as int } else { 0 };
    if b.len() == 0 {
        Seq::empty()
    } else if b.len() == 1 {
        seq![base64_char(b0 / 4), base64_char((b0 % 4) * 16), '=', '=']
    } else if b.len() == 2 {
        seq![
            base64_char(b0 / 4),
            base64_char((b0 % 4) * 16 + b1 / 16),
            base64_char((b1 % 16) * 4),
            '=',
        ]
    } else {
        seq![
            base64_char(b0 / 4),
            base64_char((b0 % 4) * 16 + b1 / 16),
            base64_char((b1 % 16) * 4 + b2 / 64),
            base64_char(b2 % 64),
        ] + base64_of(b.skip(3))
    }
}

/// Relies on `base64`'s `BASE64_STANDARD.encode`: the standard alphabet, with
/// padding.
#[verifier::external_body]
fn encode_base64(bytes: &Vec<u8>) -> (r: String)
    ensures
        r@ == base64_of(bytes@),
{
    base64::Engine::encode(&base64::prelude::BASE64_STANDARD, bytes)
}

/// The template with the radar raster, PNG-encoded, as a data URL in place
/// of `map.png`; unchanged without a raster or where it cannot be encoded.
pub open spec fn radar_filled(template: Seq<char>, image: Option<RadarIntensity>) -> Seq<char> {
    match image {
        Some(img) => match png_encoding(img.width, img.height, img.data@) {
            Some(b) => replaced(template, "map.png"@, "data:image/png;base64,"@ + base64_of(b)),
            None => template,
        },
        None => template,
    }
}

/// Embeds the radar raster in the template.
pub fn format_radar<W>(template: String, data: &KindleDisplayData<W>) -> (r: String)
    requires
        data.image matches Some(i) ==> i.wf(),
    ensures
        r@ == radar_filled(template@, data.image),
{
    proof {
        reveal_strlit("map.png");
    }
    match &data.image {
        Some(image) => match encode_png(image) {
            Some(png) => {
                let mut url = String::from_str("data:image/png;base64,");
                let encoded = encode_base64(&png);
                url.append(encoded.as_str());
                replace_text(template.as_str(), "map.png", url.as_str())
            },
            None => template,
        },
        None => template,
    }
}


/// A time of day as `HH:MM`, each number zero-padded to two digits.
pub open spec fn clock_text(hour: nat, minute: nat) -> Seq<char> {
    decimal(hour, 2) + ":"@ + decimal(minute, 2)
}

/// Writes the time of day, `HH:MM`, into the `#time` slot.
pub fn format_time(template: String, hour: u32, minute: u32) -> (r: String)
    ensures
        r@ == replaced(template@, "#time"@, clock_text(hour as nat, minute as nat)),
{
    proof {
        reveal_strlit("#time");
    }
    let mut clock = String::new();
    push_decimal(&mut clock, hour, 2);
    clock.append(":");
    push_decimal(&mut clock, minute, 2);
    assert(clock@ =~= clock_text(hour as nat, minute as nat));
    replace_text(template.as_str(), "#time", clock.as_str())
}


/// One forecast day as the dashboard shows it, its temperatures already
/// written out and its icon's markup chosen.
#[derive(Clone, Debug, PartialEq, Eq)]
pub struct DayText {
    pub date: u32,
    pub day: String,
    pub max_c: String,
    pub min_c: String,
    pub icon: String,
}

/// The date, maximum, minimum and icon slots of forecast day `k`.
pub open spec fn weather_slot_keys(k: int) -> (Seq<char>, Seq<char>, Seq<char>, Seq<char>) {
    if k == 0 {
        ("#D1"@, "#T1"@, "#T2"@, "icons/1.svg"@)
    } else if k == 1 {
        ("#D2"@, "#T3"@, "#T4"@, "icons/2.svg"@)
    } else {
        ("#D3"@, "#T5"@, "#T6"@, "icons/3.svg"@)
    }
}

fn slot_keys(k: usize) -> (r: (&'static str, &'static str, &'static str, &'static str))
    requires
        k < 3,
    ensures
        (r.0@, r.1@, r.2@, r.3@) == weather_slot_keys(k as int),
        r.0@.len() > 0,
        r.1@.len() > 0,
        r.2@.len() > 0,
{
    proof {
        reveal_strlit("#D1");
        reveal_strlit("#D2");
        reveal_strlit("#D3");
        reveal_strlit("#T1");
        reveal_strlit("#T2");
        reveal_strlit("#T3");
        reveal_strlit("#T4");
        reveal_strlit("#T5");
        reveal_strlit("#T6");
    }
    if k == 0 {
        ("#D1", "#T1", "#T2", "icons/1.svg")
    } else if k == 1 {
        ("#D2", "#T3", "#T4", "icons/2.svg")
    } else {
        ("#D3", "#T5", "#T6", "icons/3.svg")
    }
}

/// The date slot's text: the day of the month, zero-padded to two digits,
/// and the day's name.
pub open spec fn day_label(d: DayText) -> Seq<char> {
    decimal(d.date as nat, 2) + " "@ + d.day@
}

pub open spec fn day_at(w: Seq<DayText>, k: int) -> Option<DayText> {
    if 0 <= k < w.len() {
        Some(w[k])
    } else {
        None
    }
}

/// The template with the slots of forecast day `k` filled, or "NA" in them
/// where the forecast has no such day.
pub open spec fn slot_filled(t: Seq<char>, k: int, day: Option<DayText>) -> Seq<char> {
    let (dk, hi, lo, href) = weather_slot_keys(k);
    match day {
        Some(d) => image_replaced(
            replaced(replaced(replaced(t, dk, day_label(d)), hi, d.max_c@), lo, d.min_c@),
            href,
            d.icon@,
        ),
        None => replaced(replaced(replaced(t, dk, "NA"@), hi, "NA"@), lo, "NA"@),
    }
}

/// The template with the slots of the first three forecast days filled;
/// every slot reads "ERR" without a forecast.
pub open spec fn weather_filled(t: Seq<char>, weather: Option<Seq<DayText>>) -> Seq<char> {
    match weather {
        Some(w) => slot_filled(
            slot_filled(slot_filled(t, 0, day_at(w, 0)), 1, day_at(w, 1)),
            2,
            day_at(w, 2),
        ),
        None => {
            let s = replaced(replaced(replaced(t, "#D1"@, "ERR"@), "#D2"@, "ERR"@), "#D3"@, "ERR"@);
            let s = replaced(replaced(replaced(s, "#T1"@, "ERR"@), "#T2"@, "ERR"@), "#T3"@, "ERR"@);
            replaced(replaced(replaced(s, "#T4"@, "ERR"@), "#T5"@, "ERR"@), "#T6"@, "ERR"@)
        },
    }
}

fn fill_slot(template: String, k: usize, w: &Vec<DayText>) -> (r: String)
    requires
        k < 3,
    ensures
        r@ == slot_filled(template@, k as int, day_at(w@, k as int)),
{
    proof {
        reveal_strlit("NA");
        reveal_strlit(" ");
    }
    let (dk, hi, lo, href) = slot_keys(k);
    if k < w.len() {
        let d = &w[k];
        let mut label = String::new();
        push_decimal(&mut label, d.date, 2);
        label.append(" ");
        label.append(d.day.as_str());
        assert(label@ =~= day_label(*d));
        let s = replace_text(template.as_str(), dk, label.as_str());
        let s = replace_text(s.as_str(), hi, d.max_c.as_str());
        let s = replace_text(s.as_str(), lo, d.min_c.as_str());
        replace_image(s, href, d.icon.as_str())
    } else {
        let s = replace_text(template.as_str(), dk, "NA");
        let s = replace_text(s.as_str(), hi, "NA");
        replace_text(s.as_str(), lo, "NA")
    }
}

/// Fills the forecast slots of the template for the first three days.
pub fn format_weather(template: String, weather: &Option<Vec<DayText>>) -> (r: String)
    ensures
        r@ == weather_filled(
            template@,
            match weather {
                Some(w) => Some(w@),
                None => None,
            },
        ),
{
    proof {
        reveal_strlit("#D1");
        reveal_strlit("#D2");
        reveal_strlit("#D3");
        reveal_strlit("#T1");
        reveal_strlit("#T2");
        reveal_strlit("#T3");
        reveal_strlit("#T4");
        reveal_strlit("#T5");
        reveal_strlit("#T6");
    }
    match weather {
        Some(w) => {
            let s = fill_slot(template, 0, w);
            let s = fill_slot(s, 1, w);
            fill_slot(s, 2, w)
        },
        None => {
            let s = replace_text(template.as_str(), "#D1", "ERR");
            let s = replace_text(s.as_str(), "#D2", "ERR");
            let s = replace_text(s.as_str(), "#D3", "ERR");
            let s = replace_text(s.as_str(), "#T1", "ERR");
            let s = replace_text(s.as_str(), "#T2", "ERR");
            let s = replace_text(s.as_str(), "#T3", "ERR");
            let s = replace_text(s.as_str(), "#T4", "ERR");
            let s = replace_text(s.as_str(), "#T5", "ERR");
            replace_text(s.as_str(), "#T6", "ERR")
        },
    }
}

} // verus!
