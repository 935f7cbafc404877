use lipgloss::renderer::Renderer;
use lipgloss::style::data::NoTransform;
use lipgloss::style::Style;
use lipgloss::utils::{new_range, style_ranges, style_runes, Range};
use lipgloss::size::{height as block_height, size, width as block_width};
use lipgloss::utils::{
    get_lines, get_lines_visible, height, strip_ansi, which_sides_bool, which_sides_int, width,
    width_visible,
};

#[test]
fn test_strip_ansi_and_visible_width() {
    let colored = "\x1b[31mHello\x1b[0m";
    assert_eq!(strip_ansi(colored), "Hello");
    assert_eq!(width_visible(colored), 5);

    let s = "中";
    assert_eq!(width_visible(s), 2);
}

#[test]
fn test_get_lines_visible() {
    let s = "\x1b[34mBlue\x1b[0m\n\x1b[31mRed\x1b[0m";
    let (lines, maxw) = get_lines_visible(s);
    assert_eq!(lines, vec!["Blue", "Red"]);
    assert_eq!(maxw, 4);
    assert_eq!(height(s), 2);
}

#[test]
fn height_counts_newlines_plus_one() {
    assert_eq!(height(""), 1);
    assert_eq!(height("abc"), 1);
    assert_eq!(height("a\n\nb\n"), 4);
}

#[test]
fn width_of_plain_and_wide_text() {
    assert_eq!(width("hello"), 5);
    assert_eq!(width("日本"), 4);
    assert_eq!(width(""), 0);
}

#[test]
fn get_lines_keeps_every_line() {
    let (lines, maxw) = get_lines("ab\n\nabcd");
    assert_eq!(lines, vec!["ab", "", "abcd"]);
    assert_eq!(maxw, 4);
}

#[test]
fn block_size_is_widest_line_by_line_count() {
    assert_eq!(block_width("ab\nabcde\n"), 5);
    assert_eq!(block_height("ab\nabcde\n"), 3);
    assert_eq!(size("x\ny"), (1, 2));
}

#[test]
fn css_shorthand_sides() {
    assert_eq!(which_sides_int(&[1]), (1, 1, 1, 1, true));
    assert_eq!(which_sides_int(&[1, 2]), (1, 2, 1, 2, true));
    assert_eq!(which_sides_int(&[1, 2, 3]), (1, 2, 3, 2, true));
    assert_eq!(which_sides_int(&[1, 2, 3, 4]), (1, 2, 3, 4, true));
    assert_eq!(which_sides_int(&[]), (0, 0, 0, 0, false));
    assert_eq!(which_sides_int(&[1, 2, 3, 4, 5]), (0, 0, 0, 0, false));
    assert_eq!(which_sides_bool(&[true, false]), (true, false, true, false, true));
}

#[test]
fn style_ranges_styles_runs() {
    let r = Renderer::new();
    let bold = Style::new().bold(true);
    let italic = Style::new().italic(true);
    assert_eq!(
        style_ranges(&r, "hello", &[new_range(0, 2, bold.clone())]),
        "\x1b[1mhe\x1b[0mllo"
    );
    // A later range wins where ranges overlap.
    assert_eq!(
        style_ranges(&r, "abc", &[new_range(0, 3, bold.clone()), new_range(1, 2, italic.clone())]),
        "\x1b[1ma\x1b[0m\x1b[3mb\x1b[0m\x1b[1mc\x1b[0m"
    );
    // Neighbouring ranges with equivalent styles form one run.
    assert_eq!(
        style_ranges(&r, "ab", &[Range::new(0, 1, bold.clone()), Range::new(1, 2, bold.clone())]),
        "\x1b[1mab\x1b[0m"
    );
    // Empty, reversed and out-of-text ranges style nothing.
    assert_eq!(
        style_ranges(&r, "ab", &[new_range(2, 1, bold.clone()), new_range(3, 9, bold.clone())]),
        "ab"
    );
    let none: Vec<Range<NoTransform>> = Vec::new();
    assert_eq!(style_ranges(&r, "ab", &none), "ab");
    assert_eq!(style_ranges(&r, "", &[new_range(0, 1, bold)]), "");
}

#[test]
fn style_runes_styles_matched_positions() {
    let r = Renderer::new();
    let bold = Style::new().bold(true);
    let plain = Style::new();
    assert_eq!(style_runes(&r, "abc", &[1], bold.clone(), plain.clone()), "a\x1b[1mb\x1b[0mc");
    assert_eq!(style_runes(&r, "", &[0], bold, plain), "");
}

