use lipgloss::security::{
    is_safe_allocation, safe_repeat, safe_str_repeat, validate_dimension, validate_tab_width,
    MAX_DIMENSION, MAX_RENDER_MEMORY_BUDGET, MAX_REPEAT_COUNT,
};

#[test]
fn test_validate_dimension() {
    assert_eq!(validate_dimension(100, "width"), 100);
    assert_eq!(validate_dimension(MAX_DIMENSION, "width"), MAX_DIMENSION);
    assert_eq!(validate_dimension(MAX_DIMENSION + 1, "width"), MAX_DIMENSION);
    assert_eq!(validate_dimension(-5, "padding"), 0);
    assert_eq!(validate_dimension(0, "margin"), 0);
}

#[test]
fn test_safe_repeat() {
    assert_eq!(safe_repeat(' ', 5), "     ");
    assert_eq!(safe_repeat('=', 0), "");
    assert_eq!(safe_repeat('x', 1), "x");
    let result = safe_repeat('-', MAX_REPEAT_COUNT + 1);
    assert_eq!(result.len(), MAX_REPEAT_COUNT);
}

#[test]
fn test_safe_str_repeat() {
    assert_eq!(safe_str_repeat("ab", 3), "ababab");
    assert_eq!(safe_str_repeat("test", 0), "");
    assert_eq!(safe_str_repeat("", 100), "");
    let result = safe_str_repeat("x", MAX_REPEAT_COUNT + 1);
    assert_eq!(result.len(), MAX_REPEAT_COUNT);
    let result = safe_str_repeat("abc", MAX_REPEAT_COUNT);
    assert!(result.len() <= MAX_REPEAT_COUNT);
}

#[test]
fn test_is_safe_allocation() {
    assert!(is_safe_allocation(1000));
    assert!(is_safe_allocation(MAX_RENDER_MEMORY_BUDGET));
    assert!(!is_safe_allocation(MAX_RENDER_MEMORY_BUDGET + 1));
}

#[test]
fn clamp_is_idempotent_on_examples() {
    for v in [-100, -1, 0, 1, 5000, MAX_DIMENSION, MAX_DIMENSION + 1, i32::MAX, i32::MIN] {
        let once = validate_dimension(v, "x");
        assert_eq!(validate_dimension(once, "x"), once);
        assert!((0..=MAX_DIMENSION).contains(&once));
    }
}

#[test]
fn tab_width_validation() {
    assert_eq!(validate_tab_width(-7), -1);
    assert_eq!(validate_tab_width(0), 0);
    assert_eq!(validate_tab_width(8), 8);
    assert_eq!(validate_tab_width(MAX_DIMENSION + 5), MAX_DIMENSION);
}

#[test]
fn multibyte_str_repeat_is_capped_by_bytes() {
    let s = safe_str_repeat("─", MAX_REPEAT_COUNT);
    assert_eq!(s.chars().count(), MAX_REPEAT_COUNT / "─".len());
}
