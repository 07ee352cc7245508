//! What the user can set.

use vstd::prelude::*;

use crate::interaction::UiAction;

verus! {

/// The settings that are kept between runs. The size of the window is a pair of
/// floating-point numbers; the library carries their bit patterns and computes
/// nothing with them.
#[derive(Debug)]
pub struct Settings {
    pub theme: String,
    pub font_size: String,
    pub locked: bool,
    pub window_width_bits: u64,
    pub window_height_bits: u64,
}

#[verifier::ext_equal]
pub struct SettingsView {
    pub theme: Seq<char>,
    pub font_size: Seq<char>,
    pub locked: bool,
    pub window_width_bits: u64,
    pub window_height_bits: u64,
}

impl View for Settings {
    type V = SettingsView;

    open spec fn view(&self) -> SettingsView {
        SettingsView {
            theme: self.theme@,
            font_size: self.font_size@,
            locked: self.locked,
            window_width_bits: self.window_width_bits,
            window_height_bits: self.window_height_bits,
        }
    }
}

/// The bit pattern of 800.0.
pub const DEFAULT_WIDTH_BITS: u64 = 0x4089_0000_0000_0000;

/// The bit pattern of 150.0.
pub const DEFAULT_HEIGHT_BITS: u64 = 0x4062_c000_0000_0000;

/// The settings of a first run.
pub open spec fn default_settings() -> SettingsView {
    SettingsView {
        theme: "default"@,
        font_size: "medium"@,
        locked: false,
        window_width_bits: DEFAULT_WIDTH_BITS,
        window_height_bits: DEFAULT_HEIGHT_BITS,
    }
}

impl Clone for Settings {
    fn clone(&self) -> (r: Settings)
        ensures
            r@ == self@,
    {
        Settings {
            theme: self.theme.clone(),
            font_size: self.font_size.clone(),
            locked: self.locked,
            window_width_bits: self.window_width_bits,
            window_height_bits: self.window_height_bits,
        }
    }
}

impl Default for Settings {
    fn default() -> (r: Settings)
        ensures
            r@ == default_settings(),
    {
        Settings {
            theme: "default".to_owned(),
            font_size: "medium".to_owned(),
            locked: false,
            window_width_bits: DEFAULT_WIDTH_BITS,
            window_height_bits: DEFAULT_HEIGHT_BITS,
        }
    }
}

/// The settings after the setting named `key` is given `value`. A name that is
/// not known changes nothing.
pub open spec fn updated(settings: SettingsView, key: Seq<char>, value: Seq<char>) -> SettingsView {
    if key == "theme"@ {
        SettingsView { theme: value, ..settings }
    } else if key == "font_size"@ {
        SettingsView { font_size: value, ..settings }
    } else {
        settings
    }
}

/// The names of the settings that can be given a value.
pub open spec fn is_setting(key: Seq<char>) -> bool {
    key == "theme"@ || key == "font_size"@
}

impl Settings {
    /// The settings that were read at the start, or those of a first run where
    /// none were there or they could not be understood.
    pub fn or_default(read: Option<Settings>) -> (r: Settings)
        ensures
            match read {
                Some(s) => r == s,
                None => r@ == default_settings(),
            },
    {
        match read {
            Some(s) => s,
            None => Settings::default(),
        }
    }

    /// Gives the setting named `key` the value `value`. Where there is no such
    /// setting nothing is to be done, and else the settings are saved and told.
    pub fn update_setting(&mut self, key: String, value: String) -> (actions: Vec<UiAction>)
        ensures
            final(self)@ == updated(old(self)@, key@, value@),
            actions@ == (if is_setting(key@) {
                seq![UiAction::SaveSettings, UiAction::EmitSettings]
            } else {
                Seq::empty()
            }),
    {
        let mut actions: Vec<UiAction> = Vec::new();
        if key == "theme".to_owned() {
            self.theme = value;
        } else if key == "font_size".to_owned() {
            self.font_size = value;
        } else {
            assert(actions@ =~= Seq::empty());
            return actions;
        }
        actions.push(UiAction::SaveSettings);
        actions.push(UiAction::EmitSettings);
        assert(actions@ =~= seq![UiAction::SaveSettings, UiAction::EmitSettings]);
        actions
    }

    /// Notes the size of the window, which is saved.
    pub fn set_window_size(&mut self, width_bits: u64, height_bits: u64) -> (actions: Vec<
        UiAction,
    >)
        ensures
            final(self)@ == (SettingsView {
                window_width_bits: width_bits,
                window_height_bits: height_bits,
                ..old(self)@
            }),
            actions@ == seq![UiAction::SaveSettings],
    {
        self.window_width_bits = width_bits;
        self.window_height_bits = height_bits;
        let mut actions: Vec<UiAction> = Vec::new();
        actions.push(UiAction::SaveSettings);
        assert(actions@ =~= seq![UiAction::SaveSettings]);
        actions
    }
}

/// A setting that is given a value has it, and no other setting is touched.
pub proof fn law_update_reads_back(settings: SettingsView, key: Seq<char>, value: Seq<char>)
    requires
        is_setting(key),
    ensures
        ({
            let after = updated(settings, key, value);
            &&& key == "theme"@ ==> after.theme == value && after.font_size == settings.font_size
            &&& key == "font_size"@ ==> after.font_size == value && after.theme == settings.theme
            &&& after.locked == settings.locked
            &&& after.window_width_bits == settings.window_width_bits
            &&& after.window_height_bits == settings.window_height_bits
        }),
{
    reveal_strlit("theme");
    reveal_strlit("font_size");
    assert("theme"@.len() != "font_size"@.len());
}

/// Of two values that a setting is given, the later one counts.
pub proof fn law_last_update_counts(
    settings: SettingsView,
    key: Seq<char>,
    first: Seq<char>,
    second: Seq<char>,
)
    ensures
        updated(updated(settings, key, first), key, second) == updated(settings, key, second),
{
}

/// The theme and the size of the font can be given a value, under these names,
/// and nothing else can: any other name leaves the settings as they are.
pub proof fn law_two_settings_can_be_given(
    settings: SettingsView,
    key: Seq<char>,
    value: Seq<char>,
)
    ensures
        is_setting(key) <==> key == "theme"@ || key == "font_size"@,
        key == "theme"@ ==> updated(settings, key, value) == (SettingsView {
            theme: value,
            ..settings
        }),
        key == "font_size"@ ==> updated(settings, key, value) == (SettingsView {
            font_size: value,
            ..settings
        }),
        key != "theme"@ && key != "font_size"@ ==> updated(settings, key, value) == settings,
{
    reveal_strlit("theme");
    reveal_strlit("font_size");
    assert("theme"@.len() != "font_size"@.len());
}

/// A first run starts unlocked, with the default theme and a font of medium size,
/// in a window of 800.0 by 150.0.
pub proof fn law_first_run()
    ensures
        default_settings().theme == "default"@,
        default_settings().font_size == "medium"@,
        !default_settings().locked,
        default_settings().window_width_bits == 0x4089_0000_0000_0000,
        default_settings().window_height_bits == 0x4062_c000_0000_0000,
{
}

/// Settings are seen as what they hold.
pub proof fn law_settings_view(settings: Settings)
    ensures
        settings@.theme == settings.theme@,
        settings@.font_size == settings.font_size@,
        settings@.locked == settings.locked,
        settings@.window_width_bits == settings.window_width_bits,
        settings@.window_height_bits == settings.window_height_bits,
{
}

} // verus!
