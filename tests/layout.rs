use progression::{Bar, Config, Style};

fn between_delimiters(frame: &str, open: char, close: char) -> String {
    let start = frame.find(open).unwrap() + open.len_utf8();
    let end = frame.rfind(close).unwrap();
    frame[start..end].to_string()
}

#[test]
fn fill_width_for_thousand_on_default_width() {
    let bar = Bar::with_terminal_width(1000, Config::default(), None).unwrap();
    assert_eq!(bar.num_width(), 4);
    assert_eq!(bar.bar_width(), 37);
    let frame = bar.frame_at(0);
    let inside = between_delimiters(&frame, '[', ']');
    assert_eq!(inside.chars().count(), 37 + 1);
}

#[test]
fn frame_spans_the_line_width() {
    let bar = Bar::with_terminal_width(1000, Config::default(), None).unwrap();
    let frame = bar.frame_at(0);
    assert_eq!(frame.trim_matches('\r').chars().count(), 80);
}

#[test]
fn explicit_width_wins_over_terminal() {
    let config = Config { width: Some(100), ..Config::default() };
    let bar = Bar::with_terminal_width(1000, config, Some(60)).unwrap();
    assert_eq!(bar.bar_width(), 57);
}

#[test]
fn terminal_width_wins_over_default() {
    let bar = Bar::with_terminal_width(1000, Config::default(), Some(120)).unwrap();
    assert_eq!(bar.bar_width(), 77);
}

#[test]
fn prefix_and_unit_take_their_columns() {
    let config = Config { prefix: "(items) ", unit: "files", width: Some(80), ..Config::cargo() };
    let bar = Bar::with_terminal_width(5, config, None).unwrap();
    // 80 - 35 - (8 + 5 + 1 * 2) - 1
    assert_eq!(bar.bar_width(), 29);
    let frame = bar.frame_at(0);
    assert_eq!(frame.trim_matches('\r').chars().count(), 80);
}

#[test]
fn least_num_width_is_kept_when_wider() {
    let config = Config { num_width: 6, ..Config::default() };
    let bar = Bar::with_terminal_width(1000, config, None).unwrap();
    assert_eq!(bar.num_width(), 6);
    assert_eq!(bar.bar_width(), 80 - 35 - 12);
}

#[test]
fn grouped_total_widens_the_count_columns() {
    let config = Config { group_digits: true, ..Config::default() };
    let bar = Bar::with_terminal_width(1000, config, None).unwrap();
    assert_eq!(bar.num_width(), 5);
    assert_eq!(bar.bar_width(), 35);
    let frame = bar.frame_at(0);
    assert!(frame.contains("    0 / 1,000 ["));
}

#[test]
fn too_narrow_a_line_is_refused() {
    let config = Config { width: Some(36), ..Config::default() };
    assert!(Bar::with_terminal_width(1000, config, None).is_none());
    let config = Config { width: Some(43), ..Config::default() };
    assert_eq!(Bar::with_terminal_width(1000, config, None).unwrap().bar_width(), 0);
    let config = Config { width: Some(42), ..Config::default() };
    assert!(Bar::with_terminal_width(1000, config, None).is_none());
}

#[test]
fn presets_pick_their_styles() {
    assert!(Config::ascii().style == Style::Mono('#'));
    assert!(Config::unicode().style == Style::Mono('\u{2588}'));
    assert!(Config::cargo().style == Style::Edged('=', '>'));
    let d = Config::default();
    assert_eq!(d.width, None);
    assert_eq!(d.default_width, 80);
    assert_eq!(d.delimiters, ('[', ']'));
    assert_eq!(d.space_char, ' ');
    assert_eq!(d.prefix, "");
    assert_eq!(d.unit, "");
    assert_eq!(d.num_width, 0);
    assert_eq!(d.throttle_millis, 10);
    assert!(!d.group_digits);
}

#[test]
fn style_characters() {
    assert_eq!(Style::Mono('#').bar_char(), '#');
    assert_eq!(Style::Mono('#').edge_char(), '#');
    assert_eq!(Style::Edged('=', '>').bar_char(), '=');
    assert_eq!(Style::Edged('=', '>').edge_char(), '>');
}

#[test]
fn new_uses_an_explicit_width() {
    let config = Config { width: Some(80), ..Config::default() };
    let bar = Bar::new(1000, config).unwrap();
    assert_eq!(bar.bar_width(), 37);
    assert_eq!(bar.pos(), 0);
    assert_eq!(bar.len(), 1000);
}
