use lipgloss::border::normal_border;
use lipgloss::position::Position;
use lipgloss::renderer::{ColorProfileKind, Renderer};
use lipgloss::style::Style;

fn ansi() -> Renderer {
    Renderer::new()
}

fn renderer_with(profile: ColorProfileKind) -> Renderer {
    let mut r = Renderer::new();
    r.set_color_profile(profile);
    r
}

#[test]
fn test_identical_styles() {
    let r = ansi();
    let style1 = Style::new().bold(true).foreground(&r, "red");
    let style2 = Style::new().bold(true).foreground(&r, "red");
    assert!(style1.is_equivalent(&style2));
}

#[test]
fn test_different_colors() {
    let r = ansi();
    let style1 = Style::new().foreground(&r, "red");
    let style2 = Style::new().foreground(&r, "blue");
    assert!(!style1.is_equivalent(&style2));
}

#[test]
fn test_different_attributes() {
    let style1 = Style::new().bold(true);
    let style2 = Style::new().italic(true);
    assert!(!style1.is_equivalent(&style2));
}

#[test]
fn test_different_dimensions() {
    let style1 = Style::new().width(10);
    let style2 = Style::new().width(20);
    assert!(!style1.is_equivalent(&style2));
}

#[test]
fn test_different_padding() {
    let style1 = Style::new().padding_left(5);
    let style2 = Style::new().padding_left(10);
    assert!(!style1.is_equivalent(&style2));
}

#[test]
fn test_transform_comparison() {
    let style1 = Style::new();
    let style2 = Style::new();

    assert!(style1.is_equivalent(&style2));

    let style3 = Style::new().transform(|s: String| s.to_uppercase());
    assert!(!style1.is_equivalent(&style3));
    assert!(!style3.is_equivalent(&style1));
}

#[test]
fn test_complex_styles() {
    let r = ansi();
    let style1 = Style::new()
        .bold(true)
        .foreground(&r, "red")
        .background(&r, "blue")
        .width(50)
        .padding(2, 4, 2, 4)
        .margin(1, 1, 1, 1);

    let style2 = Style::new()
        .bold(true)
        .foreground(&r, "red")
        .background(&r, "blue")
        .width(50)
        .padding(2, 4, 2, 4)
        .margin(1, 1, 1, 1);

    assert!(style1.is_equivalent(&style2));

    let style3 = style2.clone().margin(1, 1, 1, 2);
    assert!(!style1.is_equivalent(&style3));
}

#[test]
fn render_plain_text_unchanged() {
    let r = ansi();
    assert_eq!(Style::new().render(&r, "hello"), "hello");
    assert_eq!(Style::new().render(&r, ""), "");
}

#[test]
fn render_padding() {
    let r = ansi();
    assert_eq!(Style::new().padding_left(2).render(&r, "hello"), "  hello");
    assert_eq!(Style::new().padding(1, 1, 1, 1).render(&r, "hi"), "\n hi \n");
    // Negative padding counts as none.
    assert_eq!(Style::new().padding_left(-3).render(&r, "hi"), "hi");
}

#[test]
fn render_width_and_alignment() {
    let r = ansi();
    assert_eq!(Style::new().width(10).render(&r, "hello"), "hello     ");
    assert_eq!(
        Style::new().width(10).align_horizontal(Position::right()).render(&r, "hello"),
        "     hello"
    );
    assert_eq!(
        Style::new().width(9).align_horizontal(Position::center()).render(&r, "hello"),
        "  hello  "
    );
}

#[test]
fn render_height_pads_below() {
    let r = ansi();
    assert_eq!(Style::new().height(3).render(&r, "a"), "a\n \n ");
    assert_eq!(
        Style::new().height(3).align_vertical(Position::bottom()).render(&r, "a"),
        " \n \na"
    );
}

#[test]
fn render_word_wrap() {
    let r = ansi();
    assert_eq!(Style::new().width(5).render(&r, "hello world"), "hello\nworld");
}

#[test]
fn render_border() {
    let r = ansi();
    assert_eq!(
        Style::new().border(normal_border()).width(5).render(&r, "hello"),
        "┌─────┐\n│hello│\n└─────┘"
    );
    assert_eq!(
        Style::new().border(normal_border()).border_top(false).width(2).render(&r, "hi"),
        "│hi│\n└──┘"
    );
}

#[test]
fn render_bold_and_colors() {
    let r = ansi();
    assert_eq!(Style::new().bold(true).render(&r, "hello"), "\x1b[1mhello\x1b[0m");
    assert_eq!(Style::new().bold(true).padding_left(2).render(&r, "hi"), "  \x1b[1mhi\x1b[0m");
    assert_eq!(Style::new().foreground(&r, "9").render(&r, "x"), "\x1b[91mx\x1b[0m");
    let none = renderer_with(ColorProfileKind::NoColor);
    assert_eq!(Style::new().foreground(&none, "9").render(&none, "x"), "x");
}

#[test]
fn render_margins() {
    let r = ansi();
    assert_eq!(Style::new().width(2).margin_left(1).render(&r, "hi"), " hi");
    assert_eq!(Style::new().width(2).margin(1, 0, 0, 0).render(&r, "hi"), "  \nhi");
}

#[test]
fn render_truncation_and_text_cleanup() {
    let r = ansi();
    assert_eq!(Style::new().max_width(5).render(&r, "hello world"), "hello\nworld");
    assert_eq!(Style::new().max_width(20).render(&r, "Short"), "Short");
    // The maximum width counts the side padding.
    assert_eq!(
        Style::new().max_width(9).padding(0, 2, 0, 2).render(&r, "hello world"),
        "  hello  \n  world  "
    );
    assert_eq!(Style::new().max_height(1).render(&r, "a\nb"), "a");
    assert_eq!(Style::new().inline(true).render(&r, "a\nb"), "ab");
    assert_eq!(Style::new().render(&r, "a\tb"), "a    b");
    assert_eq!(Style::new().tab_width(0).render(&r, "a\tb"), "ab");
    assert_eq!(Style::new().tab_width(-1).render(&r, "a\tb"), "a\tb");
    assert_eq!(Style::new().render(&r, "a\r\nb\rc"), "a\nb\nc");
    assert_eq!(Style::new().set_string("x").render(&r, "y"), "x");
}

#[test]
fn render_with_transform() {
    let r = ansi();
    let s = Style::new().transform(|s: String| s.to_uppercase());
    assert_eq!(s.render(&r, "hello"), "HELLO");
}

#[test]
fn getters_and_unsetters() {
    let s = Style::new().bold(true).width(10).padding(1, 2, 3, 4);
    assert!(s.get_bold());
    assert_eq!(s.get_width(), 10);
    assert_eq!(s.get_padding(), (1, 2, 3, 4));
    assert_eq!(s.get_horizontal_padding(), 6);
    assert_eq!(s.get_vertical_padding(), 4);
    let s = s.unset_bold().unset_width();
    assert!(!s.get_bold());
    assert_eq!(s.get_width(), 0);
    assert_eq!(s.get_tab_width(), 4);
}

#[test]
fn frame_sizes() {
    let s = Style::new().padding(1, 2, 3, 4).margin(1, 1, 1, 1).border(normal_border());
    assert_eq!(s.get_horizontal_border_size(), 2);
    assert_eq!(s.get_horizontal_frame_size(), 10);
    assert_eq!(s.get_vertical_frame_size(), 8);
    assert_eq!(s.get_frame_size(), (10, 8));
}

#[test]
fn inherit_keeps_own_settings() {
    let base = Style::new().bold(true).width(3);
    let other = Style::new().bold(false).italic(true).width(7).padding_left(2);
    let s = base.inherit(other);
    assert!(s.get_bold());
    assert!(s.get_italic());
    assert_eq!(s.get_width(), 3);
    // Padding is never inherited.
    assert_eq!(s.get_padding_left(), 0);
}

#[test]
fn validated_dimensions_clamp_negatives() {
    let s = Style::new().width(-5).padding_left(-1);
    assert_eq!(s.get_width(), 0);
    assert_eq!(s.get_padding_left(), 0);
}

#[test]
fn border_only_style_draws_a_box() {
    let r = ansi();
    assert_eq!(Style::new().border(normal_border()).render(&r, "hi"), "┌──┐\n│hi│\n└──┘");
}

#[test]
fn border_style_alone_draws_no_side() {
    let r = ansi();
    let s = Style::new().border_style(normal_border());
    assert!(!s.get_border_top());
    assert_eq!(s.render(&r, "hi"), "hi");
}

#[test]
fn unset_border_top_removes_the_top_edge() {
    let r = ansi();
    let s = Style::new()
        .border_style(normal_border())
        .border_top(true)
        .border_bottom(true)
        .unset_border_top();
    assert!(!s.get_border_top());
    assert!(s.get_border_bottom());
    assert_eq!(s.render(&r, "hi"), "hi\n────");
}

#[test]
fn height_cuts_taller_content() {
    let r = ansi();
    assert_eq!(
        Style::new().height(3).render(&r, "Line 1\nLine 2\nLine 3\nLine 4\nLine 5"),
        "Line 1\nLine 2\nLine 3"
    );
}

#[test]
fn margins_alone_are_applied() {
    let r = ansi();
    assert_eq!(Style::new().margin_left(2).render(&r, "hi"), "  hi");
}

#[test]
fn own_text_and_border_colors_count_for_equivalence() {
    let r = ansi();
    assert!(!Style::new().set_string("a").is_equivalent(&Style::new().set_string("b")));
    assert!(!Style::new()
        .border_top_foreground(&r, "1")
        .is_equivalent(&Style::new().border_top_foreground(&r, "2")));
    assert!(Style::new().set_string("a").is_equivalent(&Style::new().set_string("a")));
}
