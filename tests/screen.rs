use kindle_dash::screen::{parse_u32, screen_or_default, screen_size, size_from_groups, Screen};

#[test]
fn parse_u32_as_from_str() {
    assert_eq!(parse_u32("42"), Some(42));
    assert_eq!(parse_u32("+7"), Some(7));
    assert_eq!(parse_u32("007"), Some(7));
    assert_eq!(parse_u32("4294967295"), Some(u32::MAX));
    assert_eq!(parse_u32("4294967296"), None);
    assert_eq!(parse_u32("99999999999999999999"), None);
    assert_eq!(parse_u32("+"), None);
    assert_eq!(parse_u32(""), None);
    assert_eq!(parse_u32("-1"), None);
    assert_eq!(parse_u32("12a"), None);
    assert_eq!(parse_u32("\u{663}"), None);
    for s in ["0", "1", "65535", "+12", "x", " 1"] {
        assert_eq!(parse_u32(s), s.parse::<u32>().ok());
    }
}

#[test]
fn screen_size_from_xrandr() {
    let out = "Screen 0: minimum 8 x 8, current 1920 x 1080, maximum 32767 x 32767\nHDMI-1 connected";
    assert_eq!(screen_size(out), Some(Screen { width: 1920, height: 1080 }));
    assert_eq!(screen_size("no screens here"), None);
    assert_eq!(screen_size("current 99999999999 x 10"), None);
}

#[test]
fn screen_default_is_600_by_800() {
    assert_eq!(screen_or_default(None), Screen { width: 600, height: 800 });
    let s = Screen { width: 758, height: 1024 };
    assert_eq!(screen_or_default(Some(s)), s);
}

#[test]
fn size_from_match_groups() {
    let g = |v: &[Option<&str>]| v.iter().map(|x| x.map(|s| s.to_string())).collect::<Vec<_>>();
    assert_eq!(
        size_from_groups(&g(&[Some("current 800 x 600"), Some("800"), Some("600")])),
        Some(Screen { width: 800, height: 600 })
    );
    assert_eq!(size_from_groups(&g(&[Some("x"), Some("800")])), None);
    assert_eq!(size_from_groups(&g(&[Some("x"), None, Some("600")])), None);
    assert_eq!(size_from_groups(&g(&[Some("x"), Some("+8"), Some("06")])), Some(Screen { width: 8, height: 6 }));
}
