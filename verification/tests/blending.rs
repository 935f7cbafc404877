use lipgloss::blending::{blend_1d, ensure_not_transparent_color};
use lipgloss::color::{clamp, Color};

/// A straight-line mix of two channel triples: `j` steps of `d` from `a` to `b`.
fn linear(a: (u8, u8, u8), b: (u8, u8, u8), j: usize, d: usize) -> (u8, u8, u8) {
    let ch = |x: u8, y: u8| -> u8 {
        let x = x as i64;
        let y = y as i64;
        (x + (y - x) * j as i64 / d.max(1) as i64) as u8
    };
    (ch(a.0, b.0), ch(a.1, b.1), ch(a.2, b.2))
}

#[test]
fn test_blend_1d_basic() {
    let red = Color("#ff0000".to_string());
    let blue = Color("#0000ff".to_string());
    let gradient = blend_1d(5, vec![red, blue], linear);

    assert_eq!(gradient.len(), 5);

    let first_rgba = gradient[0].rgba();
    let last_rgba = gradient[4].rgba();

    assert!(first_rgba.0 > 200);
    assert!(last_rgba.2 > 200);
}

#[test]
fn test_blend_1d_single_color() {
    let red = Color("#ff0000".to_string());
    let gradient = blend_1d(3, vec![red.clone()], linear);

    assert_eq!(gradient.len(), 3);
    for color in gradient {
        assert_eq!(color, red);
    }
}

#[test]
fn test_blend_1d_empty_colors() {
    let gradient = blend_1d(5, vec![], linear);
    assert_eq!(gradient.len(), 0);
}

#[test]
fn test_blend_1d_minimum_steps() {
    let red = Color("#ff0000".to_string());
    let blue = Color("#0000ff".to_string());
    let gradient = blend_1d(1, vec![red, blue], linear);

    assert_eq!(gradient.len(), 2);
}

#[test]
fn test_clamp() {
    assert_eq!(clamp(5, 0, 10), 5);
    assert_eq!(clamp(-5, 0, 10), 0);
    assert_eq!(clamp(15, 0, 10), 10);
}

#[test]
fn test_ensure_not_transparent() {
    let transparent = Color("".to_string());
    let ensured = ensure_not_transparent_color(&transparent);
    let (_r, _g, _b, a) = ensured.rgba();

    assert_ne!(a, 0);
}

#[test]
fn blend_keeps_stops_and_spreads_steps() {
    let red = Color("#ff0000".to_string());
    let green = Color("#00ff00".to_string());
    let blue = Color("#0000ff".to_string());
    // Seven steps over two segments: the first gets four, the second three.
    let g = blend_1d(7, vec![red.clone(), green.clone(), blue.clone()], linear);
    assert_eq!(g.len(), 7);
    assert_eq!(g[0], red);
    assert_eq!(g[3], green);
    assert_eq!(g[4], green);
    assert_eq!(g[6], blue);
    // A step between two stops is the mixer's output, written as hex.
    assert_eq!(g[1], Color("#aa5500".to_string()));
}

#[test]
fn blend_skips_unset_stops() {
    let red = Color("#ff0000".to_string());
    let blue = Color("#0000ff".to_string());
    let g = blend_1d(2, vec![Color(String::new()), red.clone(), Color(String::new()), blue.clone()], linear);
    assert_eq!(g, vec![red, blue]);
}

#[test]
fn ensure_not_transparent_keeps_opaque_colors() {
    let c = Color("#123456".to_string());
    assert_eq!(ensure_not_transparent_color(&c), c);
    let clear = Color("#12345600".to_string());
    assert_eq!(ensure_not_transparent_color(&clear), Color("#123456".to_string()));
}
