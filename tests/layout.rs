use kindle_dash::layout::{layout, wrap, Fragment, LayoutParams};

fn params(max_lines: usize, max_width: usize) -> LayoutParams {
    LayoutParams { max_lines, max_width, origin_x: 10, origin_y: 20, font_size: 12, line_height: 15 }
}

fn frag(text: &str, y: u128) -> Fragment {
    Fragment { text: text.to_string(), x: 10, y, font_size: 12 }
}

fn items(v: &[&str]) -> Vec<String> {
    v.iter().map(|s| s.to_string()).collect()
}

#[test]
fn wrap_is_greedy() {
    assert_eq!(wrap("alpha beta gamma", 10), vec!["alpha beta".to_string(), "gamma".to_string()]);
    assert_eq!(wrap("  a  b ", 3), vec!["a b".to_string()]);
    assert_eq!(wrap("", 5), Vec::<String>::new());
    assert_eq!(wrap("overlong word", 4), vec!["overlong".to_string(), "word".to_string()]);
}

#[test]
fn layout_places_items_with_gaps() {
    let out = layout(&items(&["alpha beta gamma", "delta"]), &params(5, 10));
    assert_eq!(out, vec![frag("alpha beta", 20), frag("gamma", 35), frag("delta", 65)]);
}

#[test]
fn layout_truncates_first_item_with_placeholder() {
    let out = layout(&items(&["one two three four five", "six"]), &params(3, 3));
    assert_eq!(out, vec![frag("one", 20), frag("two", 35), frag("* * *", 50)]);
    assert!(out.len() <= 3);
}

#[test]
fn layout_first_item_shown_under_zero_budget() {
    let out = layout(&items(&["a b"]), &params(0, 1));
    assert_eq!(out, vec![frag("a", 20), frag("* * *", 35)]);
    let out = layout(&items(&["a"]), &params(0, 1));
    assert_eq!(out, vec![frag("a", 20)]);
}

#[test]
fn layout_stops_before_item_that_does_not_fit() {
    let out = layout(&items(&["a", "b c", "d"]), &params(3, 1));
    assert_eq!(out, vec![frag("a", 20)]);
}

#[test]
fn layout_without_placeholder_when_everything_fits() {
    let out = layout(&items(&["a", "b"]), &params(4, 5));
    assert_eq!(out, vec![frag("a", 20), frag("b", 50)]);
    assert!(out.iter().all(|f| f.text != "* * *"));
}

#[test]
fn layout_of_nothing_is_empty() {
    assert!(layout(&Vec::new(), &params(4, 5)).is_empty());
}
