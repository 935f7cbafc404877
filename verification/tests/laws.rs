use lipgloss::blending::snap_channels;
use lipgloss::color::{ansi256_to_rgb_u8, rgb_to_ansi256};
use lipgloss::color::{parse_hex, Color};
use lipgloss::renderer::Renderer;
use lipgloss::style::Style;

#[test]
fn tokens_concatenate_to_the_text() {
    for s in ["a b-c", "", "  lead and trail  ", "\x1b[31mred\x1b[0m words", "no-breaks-here"] {
        let toks = Style::tokenize_with_breakpoints(s, &[' ', '-']);
        assert_eq!(toks.concat(), s);
    }
}

#[test]
fn hard_wrap_concatenates_to_the_text() {
    let lines = Style::hard_wrap_ansi_aware("abcdefg", 3);
    assert_eq!(lines, vec!["abc", "def", "g"]);
    assert_eq!(lines.concat(), "abcdefg");
    let colored = "\x1b[1mabcd\x1b[0m";
    assert_eq!(Style::hard_wrap_ansi_aware(colored, 2).concat(), colored);
}

#[test]
fn truncation_keeps_a_prefix() {
    let t = Style::truncate_visible_line("hello", 3);
    assert_eq!(t, "hel");
    assert!("hello".starts_with(t.as_str()));
    assert_eq!(Style::truncate_visible_line("hi", 10), "hi");
}

#[test]
fn rendering_removes_carriage_returns() {
    let r = Renderer::new();
    let out = Style::new().render(&r, "a\r\nb\rc\r");
    assert!(!out.contains('\r'));
    assert_eq!(out, "a\nb\nc\n");
}

#[test]
fn flags_read_back_what_was_set() {
    let s = Style::new().bold(true).italic(false);
    assert!(s.get_bold());
    assert!(!s.get_italic());
    let s = s.unset_bold();
    assert!(!s.get_bold());
}

#[test]
fn width_reads_back_clamped() {
    assert_eq!(Style::new().width(20_000).get_width(), 10_000);
    assert_eq!(Style::new().width(-1).get_width(), 0);
    assert_eq!(Style::new().width(42).get_width(), 42);
}

#[test]
fn equivalence_is_reflexive_and_symmetric() {
    let a = Style::new().bold(true).width(3);
    let b = Style::new().width(3);
    assert!(a.is_equivalent(&a));
    assert_eq!(a.is_equivalent(&b), b.is_equivalent(&a));
}

#[test]
fn hex_round_trip() {
    for (r, g, b, a) in [(0u8, 0u8, 0u8, 0u8), (255, 128, 1, 255), (0x12, 0x34, 0x56, 0x78)] {
        let c = Color::from_rgba(r, g, b, a);
        assert_eq!(parse_hex(c.0.as_str()), Some((r, g, b, a)));
    }
}

#[test]
fn height_cut_keeps_first_lines() {
    let s = Style::new().max_height(2);
    assert_eq!(s.truncate_height("a\nb\nc"), "a\nb");
    assert_eq!(s.truncate_height("a\nb"), "a\nb");
    assert_eq!(s.truncate_height("only"), "only");
    assert_eq!(Style::new().truncate_height("a\nb"), "");
}

#[test]
fn cube_colors_map_back_to_their_entry() {
    for idx in 16u8..=231 {
        let (r, g, b) = ansi256_to_rgb_u8(idx);
        assert_eq!(rgb_to_ansi256(r, g, b), idx);
    }
    for (r, g, b) in [(0u8, 0u8, 0u8), (255, 255, 255), (12, 200, 99)] {
        assert!(rgb_to_ansi256(r, g, b) >= 16);
    }
}

#[test]
fn mixed_channels_snap_to_fixed_values() {
    assert_eq!(snap_channels((117, 118, 116)), (119, 119, 119));
    assert_eq!(snap_channels((246, 2, 44)), (246, 0, 45));
    assert_eq!(snap_channels((10, 20, 30)), (10, 20, 30));
}

#[test]
fn blank_style_turns_tabs_into_four_spaces() {
    let r = Renderer::new();
    assert_eq!(Style::new().render(&r, "a\tb\r\nc"), "a    b\nc");
}

#[test]
fn hex_parses_only_hex_digits() {
    assert_eq!(parse_hex(" #0a0B0c "), Some((10, 11, 12, 255)));
    assert_eq!(parse_hex("#+f+f+f"), None);
    assert_eq!(parse_hex("#12345"), None);
    assert_eq!(parse_hex("#ggg"), None);
    assert_eq!(parse_hex("fff"), None);
}

#[test]
fn joined_blocks_are_as_tall_as_the_tallest() {
    let out = lipgloss::join::join_horizontal(lipgloss::position::Position::center(), &["a", "b\nc\nd", "e\nf"]);
    assert_eq!(out.split('\n').count(), 3);
}

#[test]
fn equivalent_styles_render_alike() {
    let r = Renderer::new();
    let a = Style::new().bold(true).width(6).padding_left(1);
    let b = Style::new().width(6).padding_left(1).bold(true);
    assert!(a.is_equivalent(&b));
    assert_eq!(a.render(&r, "hi there"), b.render(&r, "hi there"));
}

#[test]
fn word_wrap_loses_only_spaces() {
    let text = "hello \x1b[1mbig\x1b[0m wonderful world";
    let lines = Style::word_wrap_ansi_aware(text, 5);
    assert!(lines.len() > 1);
    assert_eq!(lines.concat().replace(' ', ""), text.replace(' ', ""));
}
