use net_monitor::theme::{get_theme, set_theme, toggle_theme, ThemeState};

#[test]
fn theme_starts_light() {
    let s = ThemeState::new();
    assert_eq!(get_theme(&s), Ok("light".to_string()));
}

#[test]
fn theme_set_valid() {
    let mut s = ThemeState::new();
    assert_eq!(set_theme("dark".to_string(), &mut s), Ok("dark".to_string()));
    assert_eq!(get_theme(&s), Ok("dark".to_string()));
}

#[test]
fn theme_set_invalid_keeps_current() {
    let mut s = ThemeState::new();
    assert_eq!(
        set_theme("blue".to_string(), &mut s),
        Err("Invalid theme value. Must be 'light' or 'dark'".to_string())
    );
    assert_eq!(get_theme(&s), Ok("light".to_string()));
}

#[test]
fn theme_toggle_twice() {
    let mut s = ThemeState::new();
    assert_eq!(toggle_theme(&mut s), Ok("dark".to_string()));
    assert_eq!(toggle_theme(&mut s), Ok("light".to_string()));
    assert_eq!(get_theme(&s), Ok("light".to_string()));
}
