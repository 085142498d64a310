//! The application's theme preference: `light` or `dark`.

use vstd::prelude::*;
use vstd::string::StringExecFns;

verus! {

/// Whether `t` names one of the two themes.
pub open spec fn is_theme(t: Seq<char>) -> bool {
    t == "light"@ || t == "dark"@
}

/// The theme that toggling `t` gives: `light` after `dark`, `dark` after
/// anything else.
pub open spec fn toggled(t: Seq<char>) -> Seq<char> {
    if t == "dark"@ {
        "light"@
    } else {
        "dark"@
    }
}

/// The current theme. Shared users hold it behind a lock.
pub struct ThemeState {
    current_theme: String,
}

impl View for ThemeState {
    type V = Seq<char>;

    /// The current theme's name.
    closed spec fn view(&self) -> Seq<char> {
        self.current_theme@
    }
}

impl ThemeState {
    /// The store as it starts: the `light` theme.
    pub fn new() -> (r: ThemeState)
        ensures
            r@ == "light"@,
    {
        ThemeState { current_theme: String::from_str("light") }
    }
}

/// The current theme; this never fails.
pub fn get_theme(state: &ThemeState) -> (r: Result<String, String>)
    ensures
        r matches Ok(t) && t@ == state@,
{
    Ok(state.current_theme.clone())
}

/// Makes `theme` the current theme and hands it back; a name other than
/// `light` or `dark` is refused with a message and changes nothing.
pub fn set_theme(theme: String, state: &mut ThemeState) -> (r: Result<String, String>)
    ensures
        is_theme(theme@) ==> (r matches Ok(t) && t@ == theme@) && final(state)@ == theme@,
        !is_theme(theme@) ==> (r matches Err(m) && m@
            == "Invalid theme value. Must be 'light' or 'dark'"@) && final(state)@ == old(state)@,
{
    if theme != String::from_str("light") && theme != String::from_str("dark") {
        return Err(String::from_str("Invalid theme value. Must be 'light' or 'dark'"));
    }
    state.current_theme = theme.clone();
    Ok(theme)
}

/// Switches to the other theme and hands back the new one.
pub fn toggle_theme(state: &mut ThemeState) -> (r: Result<String, String>)
    ensures
        final(state)@ == toggled(old(state)@),
        r matches Ok(t) && t@ == toggled(old(state)@),
{
    let new_theme = if state.current_theme == String::from_str("dark") {
        String::from_str("light")
    } else {
        String::from_str("dark")
    };
    state.current_theme = new_theme.clone();
    Ok(new_theme)
}

} // verus!
