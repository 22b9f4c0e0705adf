use kindle_dash::fusion::{assemble, build_stats, settle, KindleDisplayData, SourceOutcome, Stats};
use kindle_dash::moon::{moon_age, moon_icon_index};
use kindle_dash::radar::RadarIntensity;
use kindle_dash::sources::{radar_image_url, tide_table_url};
use kindle_dash::template::{format_radar, format_stats, format_time, format_weather, replace_image, DayText};
use kindle_dash::text::{replace_text, split_on, trim};
use kindle_dash::tides::Tide;

fn icons() -> Vec<String> {
    (0..8).map(|i| format!("<m{i}/>")).collect()
}

fn gray() -> RadarIntensity {
    RadarIntensity { width: 1, height: 1, data: vec![190] }
}

#[test]
fn test_replace_image_exact_href() {
    let input = r#"
            <svg>
                <image
                    href="./moon/1.svg"
                    id="quirky"
                />
            </svg>
        "#;

    let expected = r#"
            <svg>
                <path />
            </svg>
        "#;

    let output = replace_image(input.to_string(), "./moon/1.svg", r#"<path />"#);

    assert_eq!(output.trim(), expected.trim());
}

#[test]
fn replace_image_leaves_other_hrefs() {
    let input = r#"<image href="moon/11.svg"/><image href="moon/1.svg"/>"#;
    let out = replace_image(input.to_string(), "moon/1.svg", "<g/>");
    assert_eq!(out, r#"<image href="moon/11.svg"/><g/>"#);
}

#[test]
fn replace_image_matches_href_literally() {
    let input = r#"<image href="moon/1xsvg"/><image href="moon/1.svg"/>"#;
    let out = replace_image(input.to_string(), "moon/1.svg", "<g/>");
    assert_eq!(out, r#"<image href="moon/1xsvg"/><g/>"#);
}

#[test]
fn one_failed_source_empties_only_its_field() {
    let stats = Stats { tides: None, moon_age: 3 };
    let d: KindleDisplayData<Vec<u32>> =
        assemble(SourceOutcome::Ready(stats), SourceOutcome::TimedOut, SourceOutcome::Ready(gray()));
    assert!(d.short_stats.is_some());
    assert!(d.weather.is_none());
    assert_eq!(d.image, Some(gray()));
    let d: KindleDisplayData<Vec<u32>> = assemble(
        SourceOutcome::Failed("boom".to_string()),
        SourceOutcome::Ready(vec![1, 2]),
        SourceOutcome::Ready(gray()),
    );
    assert!(d.short_stats.is_none());
    assert_eq!(d.weather, Some(vec![1, 2]));
    assert!(d.image.is_some());
}

#[test]
fn all_sources_failing_still_gives_a_snapshot() {
    let d: KindleDisplayData<u8> = assemble(
        SourceOutcome::TimedOut,
        SourceOutcome::Failed("x".to_string()),
        SourceOutcome::TimedOut,
    );
    assert!(d.short_stats.is_none() && d.weather.is_none() && d.image.is_none());
    assert_eq!(settle(SourceOutcome::Ready(4u8)), Some(4));
}

#[test]
fn stats_take_tides_and_moon_age() {
    let tides = (Tide::Low("08:10".to_string()), Tide::High("14:30".to_string()));
    let s = build_stats(SourceOutcome::Ready(tides.clone()), 2024, 1, 1);
    assert_eq!(s.tides, Some(tides));
    assert_eq!(s.moon_age, 27);
    let s = build_stats(SourceOutcome::TimedOut, 2019, 3, 10);
    assert_eq!(s.tides, None);
    assert_eq!(s.moon_age, 13);
}

#[test]
fn moon_age_values() {
    assert_eq!(moon_age(2024, 1, 1), 27);
    assert_eq!(moon_age(2019, 3, 10), 13);
    assert_eq!(moon_age(2015, 1, 1), 18);
    assert_eq!(moon_age(-5, 1, 1), 7);
}

#[test]
fn moon_icon_values() {
    assert_eq!(moon_icon_index(0), 0);
    assert_eq!(moon_icon_index(7), 2);
    assert_eq!(moon_icon_index(15), 4);
    assert_eq!(moon_icon_index(27), 7);
    assert_eq!(moon_icon_index(29), 7);
}

#[test]
fn stats_slots_filled() {
    let t = r#"<t>#I1a #I1b</t><t>#I2a #I2b</t><image href="moon/1.svg" />"#;
    let d: KindleDisplayData<u8> = KindleDisplayData {
        short_stats: Some(Stats {
            tides: Some((Tide::Low("08:10".to_string()), Tide::High("14:30".to_string()))),
            moon_age: 15,
        }),
        weather: None,
        image: None,
    };
    let out = format_stats(t.to_string(), &d, &icons());
    assert_eq!(out, "<t>Bajamar 08:10</t><t>Pleamar 14:30</t><m4/>");
}

#[test]
fn stats_slots_without_tides_or_stats() {
    let t = "#I1a #I1b #I2a #I2b #I5";
    let d: KindleDisplayData<u8> = KindleDisplayData {
        short_stats: Some(Stats { tides: None, moon_age: 0 }),
        weather: None,
        image: None,
    };
    assert_eq!(format_stats(t.to_string(), &d, &icons()), "NA NA NA NA #I5");
    let d: KindleDisplayData<u8> = KindleDisplayData { short_stats: None, weather: None, image: None };
    assert_eq!(format_stats(t.to_string(), &d, &icons()), "ERRa ERRb ERRa ERRb ERR");
}

#[test]
fn radar_embedded_as_png_data_url() {
    let d: KindleDisplayData<u8> = KindleDisplayData { short_stats: None, weather: None, image: Some(gray()) };
    let out = format_radar("<image href=\"map.png\"/>".to_string(), &d);
    assert!(out.starts_with("<image href=\"data:image/png;base64,iVBORw0KGgo"));
    assert!(!out.contains("map.png"));
    let none: KindleDisplayData<u8> = KindleDisplayData { short_stats: None, weather: None, image: None };
    assert_eq!(format_radar("map.png".to_string(), &none), "map.png");
}

#[test]
fn time_slot_is_zero_padded() {
    assert_eq!(format_time("at #time!".to_string(), 7, 5), "at 07:05!");
    assert_eq!(format_time("#time".to_string(), 23, 59), "23:59");
    assert_eq!(format_time("#time".to_string(), 123, 0), "123:00");
}

#[test]
fn source_addresses() {
    assert_eq!(
        radar_image_url(2024, 5, 7, 14),
        "https://www.aemet.es//imagenes_d/eltiempo/prediccion/mod_maritima/2024050700+012_aewam_can_martot.png"
    );
    assert_eq!(
        tide_table_url(2024, 11, 30),
        "https://ideihm.covam.es/api-ihm/getmarea?request=gettide&id=53&date=20241130"
    );
}

#[test]
fn source_addresses_for_unusual_years() {
    let radar = "https://www.aemet.es//imagenes_d/eltiempo/prediccion/mod_maritima/";
    assert_eq!(radar_image_url(812, 1, 2, 2), format!("{radar}0812010200+000_aewam_can_martot.png"));
    assert_eq!(radar_image_url(12345, 1, 2, 23), format!("{radar}12345010200+021_aewam_can_martot.png"));
    assert_eq!(radar_image_url(-5, 1, 2, 3), format!("{radar}-005010200+003_aewam_can_martot.png"));
    let tide = "https://ideihm.covam.es/api-ihm/getmarea?request=gettide&id=53&date=";
    for (y, m, d) in [(812, 1, 2), (12345, 6, 7), (-5, 12, 31), (-12345, 3, 4), (9999, 9, 9)] {
        let date = chrono::NaiveDate::from_ymd_opt(y, m, d).unwrap();
        assert_eq!(tide_table_url(y, m, d), format!("{tide}{}", date.format("%Y%m%d")));
    }
}

fn day(date: u32, name: &str, icon: &str) -> DayText {
    DayText {
        date,
        day: name.to_string(),
        max_c: "21.5".to_string(),
        min_c: "14.0".to_string(),
        icon: icon.to_string(),
    }
}

#[test]
fn weather_slots_filled() {
    let t = r#"#D1 #T1/#T2 <image href="icons/1.svg"/>|#D2 #T3/#T4|#D3 #T5/#T6 <image href="icons/3.svg"/>"#;
    let w = Some(vec![day(7, "Lun", "<sun/>"), day(8, "Mar", "<rain/>")]);
    assert_eq!(
        format_weather(t.to_string(), &w),
        "07 Lun 21.5/14.0 <sun/>|08 Mar 21.5/14.0|NA NA/NA <image href=\"icons/3.svg\"/>"
    );
}

#[test]
fn weather_slots_without_forecast() {
    let t = "#D1 #D2 #D3 #T1 #T2 #T3 #T4 #T5 #T6";
    assert_eq!(format_weather(t.to_string(), &None), "ERR ERR ERR ERR ERR ERR ERR ERR ERR");
    assert_eq!(format_weather(t.to_string(), &Some(vec![])), "NA NA NA NA NA NA NA NA NA");
}

#[test]
fn radar_data_url_is_base64_of_png() {
    let img = RadarIntensity { width: 2, height: 2, data: vec![0, 60, 190, 255] };
    let d: KindleDisplayData<u8> = KindleDisplayData { short_stats: None, weather: None, image: Some(img.clone()) };
    let out = format_radar("x map.png y".to_string(), &d);
    let buffer = image::GrayImage::from_raw(2, 2, img.data).unwrap();
    let mut png = std::io::Cursor::new(Vec::new());
    image::DynamicImage::ImageLuma8(buffer).write_to(&mut png, image::ImageFormat::Png).unwrap();
    let encoded = base64::Engine::encode(&base64::prelude::BASE64_STANDARD, png.into_inner());
    assert_eq!(out, format!("x data:image/png;base64,{encoded} y"));
}

#[test]
fn text_helpers() {
    assert_eq!(replace_text("a#Xb#X", "#X", "yy"), "ayybyy");
    assert_eq!(replace_text("aaa", "aa", "b"), "ba");
    assert_eq!(split_on("a\t\tb", '\t'), vec!["a".to_string(), "".to_string(), "b".to_string()]);
    assert_eq!(trim("\u{a0} x y\t\n"), "x y");
}
