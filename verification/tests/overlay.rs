use playa::interaction::{CursorSample, Interaction, UiAction};
use playa::settings::Settings;

fn cursor(near: bool, over_icon: bool, over_window: bool) -> CursorSample {
    CursorSample { near, over_icon, over_window }
}

#[test]
fn first_settings() {
    let s = Settings::default();
    assert_eq!(s.theme, "default");
    assert_eq!(s.font_size, "medium");
    assert!(!s.locked);
    assert_eq!(f64::from_bits(s.window_width_bits), 800.0);
    assert_eq!(f64::from_bits(s.window_height_bits), 150.0);
    let d = Settings::or_default(None);
    assert_eq!(d.theme, "default");
    let mut mine = Settings::default();
    mine.theme = "dark".to_string();
    assert_eq!(Settings::or_default(Some(mine)).theme, "dark");
}

#[test]
fn settings_are_updated_by_name() {
    let mut s = Settings::default();
    let told = vec![UiAction::SaveSettings, UiAction::EmitSettings];
    assert_eq!(s.update_setting("theme".to_string(), "neon".to_string()), told);
    assert_eq!((s.theme.as_str(), s.font_size.as_str()), ("neon", "medium"));
    assert_eq!(s.update_setting("font_size".to_string(), "large".to_string()), told);
    assert_eq!((s.theme.as_str(), s.font_size.as_str()), ("neon", "large"));
    assert_eq!(s.update_setting("locked".to_string(), "true".to_string()), vec![]);
    assert!(!s.locked);
    assert_eq!(s.set_window_size(640.5f64.to_bits(), 90.0f64.to_bits()), vec![UiAction::SaveSettings]);
    let copy = s.clone();
    assert_eq!(f64::from_bits(copy.window_width_bits), 640.5);
    assert_eq!(f64::from_bits(copy.window_height_bits), 90.0);
    assert_eq!(copy.theme, "neon");
}

#[test]
fn the_shortcut_switches_the_overlay() {
    let mut o = Interaction::new(true);
    assert_eq!(o.toggle_active(), vec![UiAction::IgnoreCursor(false), UiAction::EmitInteractive(true)]);
    assert!(o.active && o.locked);
    assert_eq!(o.toggle_active(), vec![UiAction::IgnoreCursor(true), UiAction::EmitInteractive(false)]);
    assert!(!o.active);
    assert_eq!(o.deactivate(), vec![UiAction::IgnoreCursor(true), UiAction::EmitInteractive(false)]);
}

#[test]
fn the_lock_keeps_settings_and_overlay_together() {
    let mut s = Settings::default();
    let mut o = Interaction::new(s.locked);
    o.toggle_active();
    assert_eq!(
        o.toggle_lock(&mut s),
        vec![
            UiAction::SaveSettings,
            UiAction::IgnoreCursor(true),
            UiAction::EmitInteractive(false),
            UiAction::EmitSettings,
        ]
    );
    assert!(s.locked && o.locked && !o.active);
    o.toggle_active();
    assert_eq!(o.toggle_lock(&mut s), vec![UiAction::SaveSettings, UiAction::EmitSettings]);
    assert!(!s.locked && !o.locked && o.active);
}

#[test]
fn the_cursor_activates_the_overlay() {
    let mut o = Interaction::new(false);
    let mut near = false;
    assert_eq!(o.hover(&mut near, cursor(true, false, false)), vec![UiAction::EmitProximity(true)]);
    assert_eq!(
        o.hover(&mut near, cursor(true, false, true)),
        vec![UiAction::IgnoreCursor(false), UiAction::EmitInteractive(true)]
    );
    assert_eq!(o.hover(&mut near, cursor(true, false, true)), vec![]);
    assert_eq!(
        o.hover(&mut near, cursor(false, false, false)),
        vec![UiAction::EmitProximity(false), UiAction::IgnoreCursor(true), UiAction::EmitInteractive(false)]
    );
    assert!(!near);
}

#[test]
fn a_locked_overlay_is_active_over_its_lock_only() {
    let mut o = Interaction::new(true);
    let mut near = true;
    assert_eq!(o.hover(&mut near, cursor(true, false, true)), vec![]);
    assert_eq!(
        o.hover(&mut near, cursor(true, true, true)),
        vec![UiAction::IgnoreCursor(false), UiAction::EmitInteractive(true)]
    );
    assert_eq!(
        o.hover(&mut near, cursor(true, false, true)),
        vec![UiAction::IgnoreCursor(true), UiAction::EmitInteractive(false)]
    );
}

#[test]
fn the_window_follows_the_overlay() {
    let mut settings = Settings::default();
    let mut o = Interaction::new(false);
    let (mut near, mut ignoring, mut interactive) = (false, true, false);
    let mut seed: u64 = 3;
    for _ in 0..2_000 {
        seed = seed.wrapping_mul(6364136223846793005).wrapping_add(1442695040888963407);
        let bits = seed >> 40;
        let actions = match bits % 5 {
            0 => o.deactivate(),
            1 => o.toggle_active(),
            2 => o.toggle_lock(&mut settings),
            _ => o.hover(&mut near, cursor(bits & 8 != 0, bits & 16 != 0, bits & 32 != 0)),
        };
        for a in actions {
            match a {
                UiAction::IgnoreCursor(b) => ignoring = b,
                UiAction::EmitInteractive(b) => interactive = b,
                _ => {}
            }
        }
        assert_eq!((ignoring, interactive, o.locked), (!o.active, o.active, settings.locked));
    }
}
