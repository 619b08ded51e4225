//! The user configuration: API key, theme and font size. Loaded once at
//! startup and saved on change; reading and writing the file is the
//! application shell's business.

use vstd::prelude::*;

verus! {

/// The color theme of the window.
#[derive(Clone, Copy, Debug, PartialEq, Eq, Structural)]
pub enum Theme {
    Light,
    Dark,
}

impl Default for Theme {
    /// The theme used until the user picks one.
    fn default() -> (r: Theme)
        ensures
            r == Theme::Dark,
    {
        Theme::Dark
    }
}

/// The persisted user configuration. The font size is in whole points.
#[derive(Clone, Debug)]
pub struct Config {
    pub api_key: String,
    pub theme: Theme,
    pub font_size: u32,
}

/// Spec model of a `Config`.
pub struct ConfigModel {
    pub api_key: Seq<char>,
    pub theme: Theme,
    pub font_size: u32,
}

impl DeepView for Config {
    type V = ConfigModel;

    open spec fn deep_view(&self) -> ConfigModel {
        ConfigModel { api_key: self.api_key@, theme: self.theme, font_size: self.font_size }
    }
}

impl Default for Config {
    /// The configuration used until one is loaded: no key, dark theme,
    /// sixteen-point text.
    fn default() -> (r: Config)
        ensures
            r.deep_view().api_key.len() == 0,
            r.deep_view().theme == Theme::Dark,
            r.deep_view().font_size == 16,
    {
        Config { api_key: String::new(), theme: Theme::Dark, font_size: 16 }
    }
}

} // verus!
