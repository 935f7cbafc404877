use lipgloss::color::{
    ansi256_to_rgb_u8, clamp, complete, dist2, is_dark_color, light_dark, parse_hex,
    parse_hex_rgba, rgb_to_ansi16, rgb_to_ansi256, AdaptiveColor, Color, CompleteAdaptiveColor,
    CompleteColor, NoColor, TerminalColor, ANSIColor,
};
use lipgloss::renderer::{ColorProfileKind, Renderer};
use lipgloss::style::Style;

fn renderer_with(profile: ColorProfileKind, dark: bool) -> Renderer {
    let mut r = Renderer::new();
    r.set_color_profile(profile);
    r.set_has_dark_background(dark);
    r
}

#[test]
fn test_hex_short_and_alpha() {
    assert_eq!(parse_hex_rgba("#fff"), Some((255, 255, 255, 0xFFFF)));
    assert_eq!(parse_hex_rgba("#000"), Some((0, 0, 0, 0xFFFF)));
    assert_eq!(parse_hex_rgba("#abcd"), Some((0xAA, 0xBB, 0xCC, 0xDD * 257)));
}

#[test]
fn test_hex_long_and_alpha() {
    assert_eq!(parse_hex_rgba("#ff0000"), Some((255, 0, 0, 0xFFFF)));
    assert_eq!(parse_hex_rgba("#11223344"), Some((0x11, 0x22, 0x33, 0x44 * 257)));
}

#[test]
fn test_ansi256_values() {
    let (r59, g59, b59) = ansi256_to_rgb_u8(59);
    println!("ANSI256 59 -> RGB({}, {}, {})", r59, g59, b59);
    let (r240, g240, b240) = ansi256_to_rgb_u8(240);
    println!("ANSI256 240 -> RGB({}, {}, {})", r240, g240, b240);
    let (r238, g238, b238) = ansi256_to_rgb_u8(238);
    println!("ANSI256 238 -> RGB({}, {}, {})", r238, g238, b238);
    println!("Testing rgb(64,64,64):");
    let dist_to_59 = dist2(64, 64, 64, r59, g59, b59);
    let dist_to_240 = dist2(64, 64, 64, r240, g240, b240);
    let dist_to_238 = dist2(64, 64, 64, r238, g238, b238);
    println!("Distance to ANSI256 59: {}", dist_to_59);
    println!("Distance to ANSI256 240: {}", dist_to_240);
    println!("Distance to ANSI256 238: {}", dist_to_238);
    let mut closest_idx = 0;
    let mut closest_dist = u32::MAX;
    for i in 0..=255u8 {
        let (r, g, b) = ansi256_to_rgb_u8(i);
        let dist = dist2(64, 64, 64, r, g, b);
        if dist < closest_dist {
            closest_dist = dist;
            closest_idx = i;
        }
    }
    println!("Closest match: ANSI256 {} with distance {}", closest_idx, closest_dist);
    let (rclosest, gclosest, bclosest) = ansi256_to_rgb_u8(closest_idx);
    println!("ANSI256 {} -> RGB({}, {}, {})", closest_idx, rclosest, gclosest, bclosest);
}

#[test]
fn test_rgb_to_ansi256_debug() {
    let r = 64u8;
    let g = 64u8;
    let b = 64u8;
    fn v2ci(v: u8) -> u8 {
        if v < 48 {
            0
        } else if v < 115 {
            1
        } else {
            ((v as i32 - 35) / 40).clamp(0, 5) as u8
        }
    }
    let qr = v2ci(r);
    let qg = v2ci(g);
    let qb = v2ci(b);
    let ci = 36 * qr + 6 * qg + qb;
    const I2CV: [u8; 6] = [0, 0x5f, 0x87, 0xaf, 0xd7, 0xff];
    let cr = I2CV[qr as usize];
    let cg = I2CV[qg as usize];
    let cb = I2CV[qb as usize];
    println!("Color cube: qr={}, qg={}, qb={}, ci={}", qr, qg, qb, ci);
    println!("Color cube RGB: ({}, {}, {})", cr, cg, cb);
    let average = (r as u32 + g as u32 + b as u32) / 3;
    let gray_idx = if average > 238 { 23 } else { ((average as i32 - 3) / 10).clamp(0, 23) as u8 };
    let gv = 8 + 10 * gray_idx;
    println!("Grayscale: average={}, gray_idx={}, gv={}", average, gray_idx, gv);
    let color_cube_dist = dist2(r, g, b, cr, cg, cb);
    let gray_dist = dist2(r, g, b, gv, gv, gv);
    println!("Distances: color_cube={}, gray={}", color_cube_dist, gray_dist);
    let result = if color_cube_dist <= gray_dist { 16 + ci } else { 232 + gray_idx };
    println!("Result: {} (should be closest distance)", result);
}

#[test]
fn test_rgb_to_ansi256_termenv_compatibility() {
    assert_eq!(rgb_to_ansi256(255, 0, 0), 196);
    assert_eq!(rgb_to_ansi256(0, 255, 0), 46);
    assert_eq!(rgb_to_ansi256(0, 0, 255), 21);
    assert_eq!(rgb_to_ansi256(128, 128, 128), 102);
    assert_eq!(rgb_to_ansi256(64, 64, 64), 238);
    assert_eq!(rgb_to_ansi256(192, 192, 192), 251);
    assert_eq!(rgb_to_ansi256(95, 95, 95), 59);
    assert_eq!(rgb_to_ansi256(135, 135, 135), 102);
}

#[test]
fn test_rgb_to_ansi16_termenv_compatibility() {
    assert_eq!(rgb_to_ansi16(255, 0, 0), 9);
    assert_eq!(rgb_to_ansi16(0, 255, 0), 10);
    assert_eq!(rgb_to_ansi16(0, 0, 255), 12);
    assert_eq!(rgb_to_ansi16(128, 0, 0), 1);
    assert_eq!(rgb_to_ansi16(0, 128, 0), 2);
    assert_eq!(rgb_to_ansi16(0, 0, 128), 4);
    assert_eq!(rgb_to_ansi16(192, 192, 192), 7);
    assert_eq!(rgb_to_ansi16(128, 128, 128), 8);
}

#[test]
fn test_color_rgba_from_numeric_index() {
    let c = Color("196".to_string());
    assert_eq!(c.rgba(), (255, 0, 0, 0xFFFF));
}

#[test]
fn test_adaptive_color_field_names() {
    let adaptive = AdaptiveColor { Light: "#000000".to_string(), Dark: "#ffffff".to_string() };
    let r = Renderer::new();
    let _token = adaptive.token(&r);
    let _rgba = adaptive.rgba_with(&r);
}

#[test]
fn test_complete_color_field_names() {
    let complete = CompleteColor {
        TrueColor: "#ff0000".to_string(),
        ANSI256: "196".to_string(),
        ANSI: "9".to_string(),
    };
    let _token = complete.token(&Renderer::new());
    let _rgba = complete.rgba();
}

#[test]
fn test_color_token_profile_conversion() {
    let hex_red = Color("#ff0000".to_string());
    let ansi_red = Color("9".to_string());
    let ansi256_red = Color("196".to_string());
    let mut renderer = Renderer::new();
    renderer.set_color_profile(ColorProfileKind::TrueColor);
    assert_eq!(hex_red.token(&renderer), "#ff0000");
    renderer.set_color_profile(ColorProfileKind::ANSI256);
    assert_eq!(hex_red.token(&renderer), "196");
    renderer.set_color_profile(ColorProfileKind::ANSI);
    assert_eq!(hex_red.token(&renderer), "9");
    renderer.set_color_profile(ColorProfileKind::ANSI256);
    assert_eq!(ansi256_red.token(&renderer), "196");
    renderer.set_color_profile(ColorProfileKind::ANSI);
    assert_eq!(ansi_red.token(&renderer), "9");
    renderer.set_color_profile(ColorProfileKind::TrueColor);
    assert_eq!(ansi_red.token(&renderer), "#ff0000");
}

#[test]
fn test_style_rendering_with_color_profiles() {
    let input = "hello";
    let test_cases = [
        (ColorProfileKind::NoColor, "hello"),
        (ColorProfileKind::ANSI, "\x1b[34mhello\x1b[0m"),
        (ColorProfileKind::ANSI256, "\x1b[38;5;62mhello\x1b[0m"),
        (ColorProfileKind::TrueColor, "\x1b[38;2;90;86;224mhello\x1b[0m"),
    ];
    for (profile, expected) in test_cases {
        let mut renderer = Renderer::new();
        renderer.set_color_profile(profile);
        let style = Style::new().foreground(&renderer, Color("#5A56E0".to_string()));
        let result = style.render(&renderer, input);
        assert_eq!(result, expected, "Profile {:?}: expected '{}', got '{}'", profile, expected, result);
    }
}

#[test]
fn test_hex_to_color_conversion() {
    let test_cases = [
        ("#FF0000", 0xFF0000),
        ("#00F", 0x0000FF),
        ("#6B50FF", 0x6B50FF),
        ("invalid color", 0x0),
        ("", 0x0),
    ];
    for (input, expected) in test_cases {
        let color = Color(input.to_string());
        let (r, g, b, _a) = color.rgba();
        let actual = (r << 16) + (g << 8) + b;
        assert_eq!(actual, expected, "Input '{}': expected 0x{:06X}, got 0x{:06X}", input, expected, actual);
    }
}

#[test]
fn test_comprehensive_rgba_validation() {
    let basic_tests = [
        (ColorProfileKind::TrueColor, true, Color("#FF0000".to_string()), 0xFF0000),
        (ColorProfileKind::TrueColor, true, Color("9".to_string()), 0xFF0000),
        (ColorProfileKind::TrueColor, true, Color("21".to_string()), 0x0000FF),
    ];
    for (i, (profile, dark_bg, color, expected)) in basic_tests.iter().enumerate() {
        let renderer = renderer_with(*profile, *dark_bg);
        let (r, g, b, _a) = color.rgba_with(&renderer);
        let actual = (r << 16) + (g << 8) + b;
        assert_eq!(
            actual, *expected,
            "Basic Test #{}: Profile {:?}, Dark: {}, Expected 0x{:06X}, Got 0x{:06X}",
            i + 1, profile, dark_bg, expected, actual
        );
    }
    let adaptive_tests = [
        (true, AdaptiveColor { Light: "#0000FF".to_string(), Dark: "#FF0000".to_string() }, 0xFF0000),
        (false, AdaptiveColor { Light: "#0000FF".to_string(), Dark: "#FF0000".to_string() }, 0x0000FF),
        (true, AdaptiveColor { Light: "21".to_string(), Dark: "9".to_string() }, 0xFF0000),
        (false, AdaptiveColor { Light: "21".to_string(), Dark: "9".to_string() }, 0x0000FF),
    ];
    for (i, (dark_bg, color, expected)) in adaptive_tests.iter().enumerate() {
        let renderer = renderer_with(ColorProfileKind::TrueColor, *dark_bg);
        let (r, g, b, _a) = color.rgba_with(&renderer);
        let actual = (r << 16) + (g << 8) + b;
        assert_eq!(
            actual, *expected,
            "Adaptive Test #{}: Dark: {}, Expected 0x{:06X}, Got 0x{:06X}",
            i + 1, dark_bg, expected, actual
        );
    }
    let complete_tests = [
        (ColorProfileKind::TrueColor, CompleteColor { TrueColor: "#FF0000".to_string(), ANSI256: "231".to_string(), ANSI: "12".to_string() }, 0xFF0000),
        (ColorProfileKind::ANSI256, CompleteColor { TrueColor: "#FF0000".to_string(), ANSI256: "231".to_string(), ANSI: "12".to_string() }, 0xFF0000),
        (ColorProfileKind::ANSI, CompleteColor { TrueColor: "#FF0000".to_string(), ANSI256: "231".to_string(), ANSI: "12".to_string() }, 0xFF0000),
        (ColorProfileKind::TrueColor, CompleteColor { TrueColor: "".to_string(), ANSI256: "231".to_string(), ANSI: "12".to_string() }, 0x000000),
    ];
    for (i, (profile, color, expected)) in complete_tests.iter().enumerate() {
        let renderer = renderer_with(*profile, true);
        let (r, g, b, _a) = color.rgba_with(&renderer);
        let actual = (r << 16) + (g << 8) + b;
        assert_eq!(
            actual, *expected,
            "Complete Test #{}: Profile {:?}, Expected 0x{:06X}, Got 0x{:06X}",
            i + 1, profile, expected, actual
        );
    }
}

#[test]
fn test_invalid_color_handling() {
    let invalid_colors = ["", "invalid", "#", "#ZZ", "#12345", "#1234567890", "not-a-color", "rgb(255,0,0)"];
    for invalid in invalid_colors {
        let color = Color(invalid.to_string());
        let (r, g, b, a) = color.rgba();
        assert_eq!(
            (r, g, b, a),
            (0, 0, 0, 0xFFFF),
            "Invalid color '{}' should return black with full alpha, got ({}, {}, {}, {})",
            invalid, r, g, b, a
        );
    }
}

#[test]
fn test_adaptive_color_rgba_combinations() {
    let adaptive = AdaptiveColor { Light: "#FF0000".to_string(), Dark: "#00FF00".to_string() };
    let (r, g, b, a) = adaptive.rgba_with(&Renderer::new());
    let is_red = (r, g, b) == (255, 0, 0);
    let is_green = (r, g, b) == (0, 255, 0);
    assert!(
        is_red || is_green,
        "AdaptiveColor RGBA should return either red (255,0,0) or green (0,255,0), got ({},{},{})",
        r, g, b
    );
    assert_eq!(a, 0xFFFF, "Alpha should be full opacity");
}

#[test]
fn test_complete_color_rgba_combinations() {
    let complete = CompleteColor { TrueColor: "#FF0000".to_string(), ANSI256: "46".to_string(), ANSI: "12".to_string() };
    let (r, g, b, a) = complete.rgba();
    assert_eq!((r, g, b, a), (255, 0, 0, 0xFFFF), "CompleteColor RGBA should use TrueColor value");
    let empty_complete = CompleteColor { TrueColor: "".to_string(), ANSI256: "46".to_string(), ANSI: "12".to_string() };
    let (r, g, b, a) = empty_complete.rgba();
    assert_eq!((r, g, b, a), (0, 0, 0, 0xFFFF), "CompleteColor with empty TrueColor should fallback to black");
}

#[test]
fn test_color_utility_functions() {
    assert_eq!(clamp(5, 0, 10), 5);
    assert_eq!(clamp(-1, 0, 10), 0);
    assert_eq!(clamp(15, 0, 10), 10);
    assert_eq!(parse_hex("#ff0000"), Some((255, 0, 0, 255)));
    assert_eq!(parse_hex("#f00"), Some((255, 0, 0, 255)));
    assert_eq!(parse_hex("#ff0000aa"), Some((255, 0, 0, 170)));
    assert_eq!(parse_hex("invalid"), None);
    assert_eq!(parse_hex(""), None);
    let r = Renderer::new();
    let black = Color("#000000".to_string());
    let white = Color("#ffffff".to_string());
    let dark_gray = Color("#404040".to_string());
    let light_gray = Color("#c0c0c0".to_string());
    assert!(is_dark_color(&black, &r));
    assert!(!is_dark_color(&white, &r));
    assert!(is_dark_color(&dark_gray, &r));
    assert!(!is_dark_color(&light_gray, &r));
}

#[test]
fn test_light_dark_function() {
    let r = Renderer::new();
    let red = Color("#ff0000".to_string());
    let blue = Color("#0000ff".to_string());
    let dark_fn = light_dark(true);
    let dark_choice = dark_fn.call(&red, &blue, &r);
    let (dr, dg, db, _) = dark_choice.rgba();
    let (br, bg, bb, _) = blue.rgba();
    assert_eq!((dr, dg, db), (br, bg, bb));
    let light_fn = light_dark(false);
    let light_choice = light_fn.call(&red, &blue, &r);
    let (lr, lg, lb, _) = light_choice.rgba();
    let (rr, rg, rb, _) = red.rgba();
    assert_eq!((lr, lg, lb), (rr, rg, rb));
}

#[test]
fn test_complete_function() {
    let r = Renderer::new();
    let ansi = Color("1".to_string());
    let ansi256 = Color("124".to_string());
    let truecolor = Color("#ff34ac".to_string());
    let complete_fn = complete(ColorProfileKind::TrueColor);
    let chosen = complete_fn.call(&ansi, &ansi256, &truecolor, &r);
    let (cr, cg, cb, _) = chosen.rgba();
    let (tr, tg, tb, _) = truecolor.rgba();
    assert_eq!((cr, cg, cb), (tr, tg, tb));
    let complete_fn = complete(ColorProfileKind::ANSI);
    let chosen = complete_fn.call(&ansi, &ansi256, &truecolor, &r);
    let (cr, cg, cb, _) = chosen.rgba();
    let (ar, ag, ab, _) = ansi.rgba();
    assert_eq!((cr, cg, cb), (ar, ag, ab));
}

#[test]
fn test_complete_adaptive_color_combinations() {
    let complete_adaptive = CompleteAdaptiveColor {
        light: CompleteColor { TrueColor: "#FF0000".to_string(), ANSI256: "196".to_string(), ANSI: "9".to_string() },
        dark: CompleteColor { TrueColor: "#00FF00".to_string(), ANSI256: "46".to_string(), ANSI: "10".to_string() },
    };
    let (r, g, b, a) = complete_adaptive.rgba_with(&Renderer::new());
    let is_red = (r, g, b) == (255, 0, 0);
    let is_green = (r, g, b) == (0, 255, 0);
    assert!(
        is_red || is_green,
        "CompleteAdaptiveColor RGBA should return either red (255,0,0) or green (0,255,0), got ({},{},{})",
        r, g, b
    );
    assert_eq!(a, 0xFFFF, "Alpha should be full opacity");
}

#[test]
fn hex_written_reads_back() {
    for (r, g, b, a) in [(0u8, 0u8, 0u8, 255u8), (255, 128, 7, 255), (1, 2, 3, 4), (0xab, 0xcd, 0xef, 0)] {
        let c = Color::from_rgba(r, g, b, a);
        assert_eq!(parse_hex(&c.0), Some((r, g, b, a)));
    }
    assert_eq!(Color::from_rgb(255, 0, 16).0, "#ff0010");
}

#[test]
fn rgba16_widens_channels() {
    assert_eq!(Color("#ff0080".to_string()).rgba16(), (0xFFFF, 0, 0x80 * 257, 0xFFFF));
    assert_eq!(Color("9".to_string()).rgba16(), (0xFFFF, 0, 0, 0xFFFF));
}

#[test]
fn other_color_kinds() {
    let r = renderer_with(ColorProfileKind::ANSI256, false);
    assert_eq!(NoColor.token(&r), "");
    assert_eq!(NoColor.rgba(), (0, 0, 0, 0xFFFF));
    assert_eq!(ANSIColor(21).token(&r), "21");
    assert_eq!("#ff0000".token(&r), "196");
    assert_eq!("#ff0000".to_string().token(&r), "196");
    let adaptive = AdaptiveColor { Light: "#0000ff".to_string(), Dark: "#ff0000".to_string() };
    assert_eq!(adaptive.token(&r), "21");
}

#[test]
fn sixteen_color_tokens_are_palette_numbers() {
    let p = ColorProfileKind::ANSI;
    assert_eq!(lipgloss::color::resolve_color_token_for_profile("31", p), "1");
    assert_eq!(lipgloss::color::resolve_color_token_for_profile("41", p), "1");
    assert_eq!(lipgloss::color::resolve_color_token_for_profile("97", p), "15");
    assert_eq!(lipgloss::color::resolve_color_token_for_profile("105", p), "13");
    assert_eq!(lipgloss::color::resolve_color_token_for_profile("12", p), "12");
    assert_eq!(lipgloss::color::resolve_color_token_for_profile("20", p), "4");
}

#[test]
fn renderer_copies_keep_their_own_settings() {
    let mut r = Renderer::new();
    r.set_color_profile(ColorProfileKind::ANSI256);
    let copy = r.clone();
    r.set_color_profile(ColorProfileKind::TrueColor);
    r.set_has_dark_background(false);
    assert_eq!(r.color_profile(), ColorProfileKind::TrueColor);
    assert_eq!(copy.color_profile(), ColorProfileKind::ANSI256);
    assert!(copy.has_dark_background());
    // A style keeps the renderer it was given as it was then.
    let s = Style::new().renderer(copy).foreground(&copy, "#ff0000");
    assert_eq!(s.render(&r, "x"), "\x1b[38;5;196mx\x1b[0m");
}
