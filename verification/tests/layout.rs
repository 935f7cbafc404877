use lipgloss::align::{align, try_align, HorizontalAlignment, VerticalAlignment};
use lipgloss::join::{join_horizontal, join_vertical};
use lipgloss::position::Position;
use lipgloss::renderer::Renderer;
use lipgloss::whitespace::{with_whitespace_chars, WhitespaceOption};

#[test]
fn place_horizontal_splits_the_gap() {
    let r = Renderer::new();
    assert_eq!(r.place_horizontal(6, Position::left(), "hi", &[]), "hi    ");
    assert_eq!(r.place_horizontal(6, Position::right(), "hi", &[]), "    hi");
    assert_eq!(r.place_horizontal(6, Position::center(), "hi", &[]), "  hi  ");
    // The left share is the position's share of the gap, rounded half up.
    assert_eq!(r.place_horizontal(5, Position::center(), "hi", &[]), "  hi ");
    assert_eq!(r.place_horizontal(6, Position(250), "ab", &[]), " ab   ");
    assert_eq!(r.place_horizontal(6, Position(750), "ab", &[]), "   ab ");
}

#[test]
fn place_horizontal_pads_short_lines() {
    let r = Renderer::new();
    assert_eq!(r.place_horizontal(4, Position::left(), "a\nabc", &[]), "a   \nabc ");
}

#[test]
fn place_leaves_wide_text_alone() {
    let r = Renderer::new();
    assert_eq!(r.place_horizontal(2, Position::center(), "hello", &[]), "hello");
    assert_eq!(r.place_vertical(1, Position::center(), "a\nb", &[]), "a\nb");
}

#[test]
fn place_vertical_fills_with_blank_rows() {
    let r = Renderer::new();
    assert_eq!(r.place_vertical(3, Position::top(), "Hi", &[]), "Hi\n  \n  ");
    assert_eq!(r.place_vertical(3, Position::bottom(), "Hi", &[]), "  \n  \nHi");
    assert_eq!(r.place_vertical(4, Position::center(), "Hi", &[]), "  \n  \nHi\n  ");
}

#[test]
fn place_in_a_box() {
    let r = Renderer::new();
    assert_eq!(
        r.place(4, 3, Position::center(), Position::center(), "x", &[]),
        "    \n  x \n    "
    );
}

#[test]
fn place_with_custom_whitespace() {
    let r = Renderer::new();
    let opts: Vec<WhitespaceOption> = vec![with_whitespace_chars(".")];
    assert_eq!(r.place_horizontal(5, Position::left(), "ab", &opts), "ab...");
}

#[test]
fn try_place_refuses_zero_width_fill() {
    let r = Renderer::new();
    let opts: Vec<WhitespaceOption> = vec![with_whitespace_chars("\u{200b}")];
    assert_eq!(r.try_place(5, 1, Position::left(), Position::top(), "ab", &opts), None);
    assert_eq!(
        r.try_place(2, 1, Position::left(), Position::top(), "ab", &opts),
        Some("ab".to_string())
    );
}

#[test]
fn align_matches_place() {
    let r = Renderer::new();
    assert_eq!(
        align(&r, 4, 1, HorizontalAlignment::Right, VerticalAlignment::Top, "ab", &[]),
        "  ab"
    );
    assert_eq!(
        try_align(&r, 4, 2, HorizontalAlignment::Left, VerticalAlignment::Bottom, "ab", &[]),
        Some("    \nab  ".to_string())
    );
}

#[test]
fn join_horizontal_pads_blocks() {
    assert_eq!(join_horizontal(Position::top(), &["a", "b\nc"]), "ab\n c");
    assert_eq!(join_horizontal(Position::bottom(), &["a", "b\nc"]), " b\nac");
}

#[test]
fn join_vertical_pads_lines() {
    assert_eq!(join_vertical(Position::left(), &["a", "bcd"]), "a  \nbcd");
    assert_eq!(join_vertical(Position::right(), &["a", "bcd"]), "  a\nbcd");
    assert_eq!(join_vertical(Position::left(), &[]), "");
}

#[test]
fn zero_width_fill_becomes_spaces() {
    let r = Renderer::new();
    let opts: Vec<WhitespaceOption> = vec![with_whitespace_chars("\u{200b}")];
    assert_eq!(r.place_horizontal(5, Position::left(), "ab", &opts), "ab   ");
}

#[test]
fn align_never_cuts_lines() {
    let r = Renderer::new();
    let taller = align(&r, 3, 4, HorizontalAlignment::Center, VerticalAlignment::Center, "a\nbb", &[]);
    assert_eq!(taller.split('\n').count(), 4);
    let kept = align(&r, 1, 1, HorizontalAlignment::Left, VerticalAlignment::Bottom, "a\nb\nc", &[]);
    assert_eq!(kept, "a\nb\nc");
    assert_eq!(kept.split('\n').count(), 3);
}
