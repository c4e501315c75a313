//! The settings of the application.

use vstd::prelude::*;

verus! {

/// The settings of the application.
#[derive(Debug, Clone)]
pub struct AppSettings {
    /// The colour theme: "light", "dark" or "system".
    pub theme: String,
    /// Whether closing the window hides it in the tray instead of ending the program.
    pub close_to_tray: bool,
}

impl Default for AppSettings {
    /// The theme of the system, and closing to the tray.
    fn default() -> (out: AppSettings)
        ensures
            out.theme@ == "system"@,
            out.close_to_tray,
    {
        AppSettings { theme: "system".to_owned(), close_to_tray: true }
    }
}

/// `std::sync::Mutex`, the lock that guards a value shared between threads. Nothing is
/// claimed of it: it is held, and never looked into.
#[verifier::external_type_specification]
#[verifier::external_body]
#[verifier::reject_recursive_types(T)]
pub struct ExMutex<T: ?Sized>(std::sync::Mutex<T>);

/// The settings as the running application shares them.
pub struct SettingsState(pub std::sync::Mutex<AppSettings>);

/// The settings to start with: those that were read, or the default ones where none
/// could be read.
pub fn settings_or_default(read: Option<AppSettings>) -> (out: AppSettings)
    ensures
        read matches Some(settings) ==> out == settings,
        read is None ==> out.theme@ == "system"@ && out.close_to_tray,
{
    match read {
        Some(settings) => settings,
        None => AppSettings::default(),
    }
}

} // verus!
