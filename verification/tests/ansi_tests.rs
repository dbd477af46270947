use zjstatus_hints::ansi::{calculate_visible_length, truncate_ansi_string, AnsiParser, AnsiSegment};

#[test]
fn visible_length_of_plain_text() {
    assert_eq!(calculate_visible_length(""), 0);
    assert_eq!(calculate_visible_length("hello"), 5);
    assert_eq!(calculate_visible_length("←→"), 2);
}

#[test]
fn visible_length_skips_escape_sequences() {
    assert_eq!(calculate_visible_length("\x1b[1mab\x1b[0m"), 2);
    assert_eq!(calculate_visible_length("\x1b[38;2;255;0;0mred\x1b[0m text"), 8);
}

#[test]
fn unterminated_escape_hides_the_rest() {
    assert_eq!(calculate_visible_length("ab\x1b[1xyz"), 2);
}

#[test]
fn parser_splits_escapes_and_characters() {
    let mut p = AnsiParser::new("a\x1b[1mb");
    match p.next_segment() {
        Some(AnsiSegment::VisibleChar(c)) => assert_eq!(c, 'a'),
        _ => panic!("expected a visible character"),
    }
    match p.next_segment() {
        Some(AnsiSegment::EscapeSequence(s)) => assert_eq!(s, "\x1b[1m"),
        _ => panic!("expected an escape sequence"),
    }
    match p.next_segment() {
        Some(AnsiSegment::VisibleChar(c)) => assert_eq!(c, 'b'),
        _ => panic!("expected a visible character"),
    }
    assert!(p.next_segment().is_none());
}

#[test]
fn fitting_text_is_kept() {
    assert_eq!(truncate_ansi_string("hello", "...", 5), "hello");
    assert_eq!(truncate_ansi_string("\x1b[1mhi\x1b[0m", "...", 2), "\x1b[1mhi\x1b[0m");
}

#[test]
fn no_room_for_text_gives_the_marker() {
    assert_eq!(truncate_ansi_string("hello world", "...", 3), "...");
    assert_eq!(truncate_ansi_string("hello world", "...", 2), "..");
    assert_eq!(truncate_ansi_string("hello world", "...", 0), "");
    assert_eq!(truncate_ansi_string("hello world", "…", 2), "…");
}

#[test]
fn cut_text_keeps_escapes_and_appends_marker() {
    assert_eq!(
        truncate_ansi_string("\x1b[1mhello world\x1b[0m", "...", 8),
        "\x1b[1mhello\x1b[0m..."
    );
    assert_eq!(truncate_ansi_string("abcdef", "…", 4), "a…");
}

#[test]
fn cut_text_fits_the_limit() {
    let text = " \x1b[1mCtrl + p\x1b[0m pane  \x1b[1mCtrl + t\x1b[0m tab";
    for max in 0..calculate_visible_length(text) {
        let cut = truncate_ansi_string(text, "...", max);
        assert!(calculate_visible_length(&cut) <= max);
        if max > 3 {
            assert!(cut.ends_with("..."));
        }
    }
}

#[test]
fn joined_text_shows_no_more_than_its_parts() {
    let a = "ab\x1b[1";
    let b = "mcd";
    let joined = format!("{}{}", a, b);
    assert_eq!(calculate_visible_length(&joined), 4);
    assert!(calculate_visible_length(&joined) <= calculate_visible_length(a) + calculate_visible_length(b));
    assert_eq!(calculate_visible_length(a) + calculate_visible_length(b), 5);
}

#[test]
fn cutting_twice_changes_nothing() {
    let text = "\x1b[1mhello world\x1b[0m";
    let once = truncate_ansi_string(text, "...", 8);
    assert_eq!(truncate_ansi_string(&once, "...", 8), once);
}
