use lipgloss::color::Color;
use lipgloss::renderer::{ColorProfileKind, Renderer};
use lipgloss::whitespace::{
    new_whitespace, with_whitespace_background, with_whitespace_chars, with_whitespace_foreground,
    with_whitespace_strikethrough, with_whitespace_underline,
};

#[test]
fn test_whitespace_basic_render() {
    let renderer = Renderer::new();
    let ws = new_whitespace(&renderer, &[]);
    let result = ws.render(5);
    assert_eq!(result, "     ");
}

#[test]
fn test_whitespace_with_custom_chars() {
    let renderer = Renderer::new();
    let ws = new_whitespace(&renderer, &[with_whitespace_chars(".")]);
    let result = ws.render(3);
    assert_eq!(result, "...");
}

#[test]
fn test_whitespace_with_foreground_color() {
    let mut renderer = Renderer::new();
    renderer.set_color_profile(ColorProfileKind::ANSI256);
    let color = Color("9".to_string());
    let ws = new_whitespace(&renderer, &[with_whitespace_foreground(color)]);
    let result = ws.render(3);
    assert!(result.starts_with("\x1b[38;5;9m"));
    assert!(result.ends_with("\x1b[0m"));
    assert!(result.contains("   "));
}

#[test]
fn test_whitespace_matches_go_algorithm() {
    let renderer = Renderer::new();
    let ws = new_whitespace(&renderer, &[with_whitespace_chars("ab")]);
    let result = ws.render(5);
    assert_eq!(result, "ababa");
}

#[test]
fn test_whitespace_struct_matches_go() {
    let renderer = Renderer::new();
    let ws = new_whitespace(
        &renderer,
        &[with_whitespace_chars("*"), with_whitespace_foreground(Color("1".to_string()))],
    );
    let result = ws.render(2);
    assert!(result.len() > 2);
    assert!(result.contains("**"));
}

#[test]
fn test_whitespace_combined_fg_bg_builds_complete_sgr() {
    let mut renderer = Renderer::new();
    renderer.set_color_profile(ColorProfileKind::ANSI256);
    let ws = new_whitespace(
        &renderer,
        &[
            with_whitespace_foreground(Color("1".to_string())),
            with_whitespace_background(Color("2".to_string())),
        ],
    );
    let out = ws.render(1);
    let prefix = "\x1b[38;5;1;48;5;2m";
    assert!(out.starts_with(prefix));
    assert!(out.ends_with("\x1b[0m"));
    assert!(out.len() > prefix.len() + "\x1b[0m".len());
}

#[test]
fn wide_chars_leave_a_padded_gap() {
    let renderer = Renderer::new();
    let ws = new_whitespace(&renderer, &[with_whitespace_chars("太")]);
    assert_eq!(ws.render(5), "太太 ");
}

#[test]
fn underline_and_strikethrough_join_into_one_sequence() {
    let renderer = Renderer::new();
    let ws = new_whitespace(&renderer, &[with_whitespace_underline(), with_whitespace_strikethrough()]);
    assert_eq!(ws.render(2), "\x1b[4;9m  \x1b[0m");
}

#[test]
fn true_color_tokens_become_rgb_parameters() {
    let mut renderer = Renderer::new();
    renderer.set_color_profile(ColorProfileKind::TrueColor);
    let ws = new_whitespace(&renderer, &[with_whitespace_foreground(Color("#ff8000".to_string()))]);
    assert_eq!(ws.render(1), "\x1b[38;2;255;128;0m \x1b[0m");
}

#[test]
fn no_color_profile_adds_no_sequence() {
    let mut renderer = Renderer::new();
    renderer.set_color_profile(ColorProfileKind::NoColor);
    let ws = new_whitespace(&renderer, &[with_whitespace_foreground(Color("#ff8000".to_string()))]);
    assert_eq!(ws.render(3), "   ");
}

#[test]
fn zero_width_renders_nothing_but_the_style() {
    let renderer = Renderer::new();
    let ws = new_whitespace(&renderer, &[]);
    assert_eq!(ws.render(0), "");
}

#[test]
fn try_render_refuses_only_unfillable_whitespace() {
    let renderer = Renderer::new();
    let ws = new_whitespace(&renderer, &[with_whitespace_chars("\u{301}")]);
    assert!(!ws.can_render());
    assert_eq!(ws.try_render(3), None);
    assert_eq!(ws.try_render(0), Some(String::new()));
    let ok = new_whitespace(&renderer, &[with_whitespace_chars("-")]);
    assert_eq!(ok.try_render(2), Some("--".to_string()));
}

#[test]
fn zero_width_chars_render_as_spaces() {
    let renderer = Renderer::new();
    let ws = new_whitespace(&renderer, &[with_whitespace_chars("\u{301}")]);
    assert_eq!(ws.render(3), "   ");
    assert_eq!(ws.render(0), "");
}
