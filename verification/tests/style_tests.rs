use zjstatus_hints::style::{
    overlay, parse_color_token, parse_inline_directive, render_hint_format_inline, Colour,
    HintPaint, Overlay, Segment, Style,
};

const NONE: Overlay = Overlay { fg: None, bg: None, clear_bg: false };

fn painted_with(fmt: &str, key: &str, action: &str, paint: HintPaint) -> Vec<(Style, String)> {
    let mut parts: Vec<Segment> = Vec::new();
    render_hint_format_inline(&mut parts, fmt, key, action, paint);
    parts.into_iter().map(|p| (p.style, p.text)).collect()
}

fn painted(fmt: &str, key: &str, action: &str) -> Vec<(Style, String)> {
    painted_with(fmt, key, action, HintPaint { key: NONE, label: NONE })
}

#[test]
fn hex_colours() {
    assert_eq!(parse_color_token("#ff0000"), Some(Colour::Rgb(255, 0, 0)));
    assert_eq!(parse_color_token("#6E5fB7"), Some(Colour::Rgb(0x6e, 0x5f, 0xb7)));
    assert_eq!(parse_color_token("  #000000 "), Some(Colour::Rgb(0, 0, 0)));
    assert_eq!(parse_color_token("#+F+F+F"), None);
    assert_eq!(parse_color_token("#aébcd"), None);
    assert_eq!(parse_color_token("#ééé"), None);
    assert_eq!(parse_color_token("#fff"), None);
    assert_eq!(parse_color_token("#gg0000"), None);
    assert_eq!(parse_color_token("#ff00000"), None);
    assert_eq!(parse_color_token("#"), None);
}

#[test]
fn palette_indices() {
    assert_eq!(parse_color_token("0"), Some(Colour::Fixed(0)));
    assert_eq!(parse_color_token("255"), Some(Colour::Fixed(255)));
    assert_eq!(parse_color_token("+5"), Some(Colour::Fixed(5)));
    assert_eq!(parse_color_token("256"), None);
    assert_eq!(parse_color_token("-1"), None);
}

#[test]
fn colour_names() {
    assert_eq!(parse_color_token("red"), Some(Colour::Fixed(1)));
    assert_eq!(parse_color_token("GRAY"), Some(Colour::Fixed(8)));
    assert_eq!(parse_color_token("grey"), Some(Colour::Fixed(8)));
    assert_eq!(parse_color_token("Purple"), Some(Colour::Fixed(5)));
    assert_eq!(parse_color_token("bright_white"), Some(Colour::Fixed(15)));
    assert_eq!(parse_color_token("bright_purple"), Some(Colour::Fixed(13)));
    assert_eq!(parse_color_token("orange"), None);
    assert_eq!(parse_color_token(""), None);
}

#[test]
fn directive_sets_colours_and_flags() {
    let s = parse_inline_directive("fg=#ff0000,bg=blue,bold");
    assert_eq!(s, Style::new().fg(Colour::Rgb(255, 0, 0)).on(Colour::Fixed(4)).bold());
    let s = parse_inline_directive(" italics , UNDERSCORE,dim,blink,hidden,reverse,strikethrough");
    assert_eq!(
        s,
        Style::new().italic().underline().dimmed().blink().hidden().reverse().strikethrough()
    );
    assert_eq!(parse_inline_directive("curly-underscore"), Style::new().underline());
    assert_eq!(parse_inline_directive("dashed-underscore"), Style::new().underline());
}

#[test]
fn directive_ignores_unknown_tokens_and_bad_colours() {
    assert_eq!(parse_inline_directive(""), Style::new());
    assert_eq!(parse_inline_directive("sparkle,,fg=nope"), Style::new());
    assert_eq!(parse_inline_directive("fg=1,fg=2"), Style::new().fg(Colour::Fixed(2)));
}

#[test]
fn default_template_paints_bold_key_and_plain_action() {
    assert_eq!(
        painted("#[bold]{key}#[] {action}", "^n", "new"),
        vec![(Style::new().bold(), "^n".to_string()), (Style::new(), " new".to_string())]
    );
}

#[test]
fn template_without_directives() {
    assert_eq!(painted("{key}:{action}", "^n", "new"), vec![(Style::new(), "^n:new".to_string())]);
    assert_eq!(painted("{action}[{key}]", "^n", "new"), vec![(Style::new(), "new[^n]".to_string())]);
    assert_eq!(painted("", "^n", "new"), vec![]);
}

#[test]
fn directives_do_not_inherit() {
    assert_eq!(
        painted("#[fg=red,bold]{key}#[italic] {action}", "x", "close"),
        vec![
            (Style::new().fg(Colour::Fixed(1)).bold(), "x".to_string()),
            (Style::new().italic(), " close".to_string()),
        ]
    );
}

#[test]
fn leading_text_is_unstyled_and_empty_pieces_are_dropped() {
    assert_eq!(
        painted("<{key}>#[bold]#[fg=2]{action}", "a", "b"),
        vec![(Style::new(), "<a>".to_string()), (Style::new().fg(Colour::Fixed(2)), "b".to_string())]
    );
}

#[test]
fn piece_without_bracket_is_plain_content() {
    assert_eq!(
        painted("a#[fg=1{key}", "k", "x"),
        vec![(Style::new(), "a".to_string()), (Style::new(), "fg=1k".to_string())]
    );
}

#[test]
fn bad_colours_fall_through() {
    assert_eq!(parse_inline_directive("fg=#aé123"), Style::new());
    assert_eq!(parse_inline_directive("fg=#aébcd,bold"), Style::new().bold());
    assert_eq!(
        painted("#[fg=#aébcd]{key}", "k", "x"),
        vec![(Style::new(), "k".to_string())]
    );
}

#[test]
fn overlays_paint_key_and_label() {
    let red = Overlay { fg: Some(Colour::Fixed(1)), bg: None, clear_bg: false };
    assert_eq!(
        painted_with("#[bold]{key}#[] {action}", "^n", "new", HintPaint { key: red, label: NONE }),
        vec![
            (Style::new().bold().fg(Colour::Fixed(1)), "^n".to_string()),
            (Style::new(), " ".to_string()),
            (Style::new(), "new".to_string()),
        ]
    );
    let blue_bg = Overlay { fg: None, bg: Some(Colour::Fixed(4)), clear_bg: false };
    assert_eq!(
        painted_with("<{action}>", "^n", "new", HintPaint { key: NONE, label: blue_bg }),
        vec![
            (Style::new(), "<".to_string()),
            (Style::new().on(Colour::Fixed(4)), "new".to_string()),
            (Style::new(), ">".to_string()),
        ]
    );
    let clear = Overlay { fg: None, bg: None, clear_bg: true };
    assert_eq!(overlay(Style::new().on(Colour::Fixed(3)).bold(), clear), Style::new().bold());
}
