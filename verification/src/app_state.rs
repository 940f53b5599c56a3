//! The user's settings and the search configuration, and how they are kept
//! in agreement.
use vstd::prelude::*;

use crate::browser::address::SearchConfig;

verus! {

/// The user's preferences.
#[derive(Debug)]
pub struct UserSettings {
    pub dark_mode: bool,
    pub search_engine: String,
    pub show_extensions: bool,
    /// Enables the web inspector for tabs opened after it is turned on.
    pub developer_tools: bool,
    /// Enables intelligent tracking prevention on the shared network
    /// session of normal windows, at once.
    pub tracking_prevention: bool,
}

/// The engine searched with when none was chosen.
pub fn default_search_engine() -> (r: String)
    ensures
        r@ == "brave"@,
{
    "brave".to_owned()
}

/// The value of a switch that was never set: on.
pub fn default_true() -> (b: bool)
    ensures
        b,
{
    true
}

impl Default for UserSettings {
    /// Dark theme, Brave search, and every switch on.
    fn default() -> (s: Self)
        ensures
            s.dark_mode,
            s.search_engine@ == "brave"@,
            s.show_extensions,
            s.developer_tools,
            s.tracking_prevention,
    {
        UserSettings {
            dark_mode: true,
            search_engine: default_search_engine(),
            show_extensions: true,
            developer_tools: true,
            tracking_prevention: true,
        }
    }
}

/// The settings and search configuration shared by every window.
pub struct AppState {
    pub settings: UserSettings,
    pub search: SearchConfig,
}

/// The engine a session starts with: the one in the settings when the
/// configuration knows it, else the configuration's default.
pub open spec fn reconciled_engine(settings_engine: Seq<char>, search: SearchConfig) -> Seq<char> {
    if search@.engines.contains_key(settings_engine) {
        settings_engine
    } else {
        search@.default_engine
    }
}

impl AppState {
    /// The engine in the settings is the default of the search configuration.
    pub open spec fn consistent(&self) -> bool {
        self.settings.search_engine@ == self.search@.default_engine
    }

    /// The state built from the stored settings and search configuration:
    /// both use the stored engine when it is known, else the configured
    /// default.
    pub fn load(settings: UserSettings, search: SearchConfig) -> (state: Self)
        ensures
            state.consistent(),
            state.settings.search_engine@ == reconciled_engine(settings.search_engine@, search),
            state.search@.engines == search@.engines,
            state.settings.dark_mode == settings.dark_mode,
            state.settings.show_extensions == settings.show_extensions,
            state.settings.developer_tools == settings.developer_tools,
            state.settings.tracking_prevention == settings.tracking_prevention,
    {
        let mut settings = settings;
        let mut search = search;
        if !search.contains_engine(settings.search_engine.as_str()) {
            settings.search_engine = search.default_engine();
        }
        search.set_default_engine(settings.search_engine.clone());
        AppState { settings, search }
    }

    /// Makes `engine` the engine searched with, if the configuration knows
    /// it; gives whether it did, that is, whether the settings changed.
    pub fn set_search_engine(&mut self, engine: &str) -> (changed: bool)
        ensures
            changed == old(self).search@.engines.contains_key(engine@),
            changed ==> final(self).settings.search_engine@ == engine@
                && final(self).search@.default_engine == engine@,
            !changed ==> final(self).settings.search_engine == old(self).settings.search_engine
                && final(self).search@ == old(self).search@,
            final(self).search@.engines == old(self).search@.engines,
            final(self).settings.dark_mode == old(self).settings.dark_mode,
            final(self).settings.show_extensions == old(self).settings.show_extensions,
            final(self).settings.developer_tools == old(self).settings.developer_tools,
            final(self).settings.tracking_prevention == old(self).settings.tracking_prevention,
            old(self).consistent() ==> final(self).consistent(),
    {
        if !self.search.contains_engine(engine) {
            return false;
        }
        self.search.set_default_engine(engine.to_owned());
        self.settings.search_engine = engine.to_owned();
        true
    }

    /// Switches between the dark and the light theme.
    pub fn set_dark_mode(&mut self, dark: bool)
        ensures
            final(self).settings.dark_mode == dark,
            final(self).settings.search_engine == old(self).settings.search_engine,
            final(self).settings.show_extensions == old(self).settings.show_extensions,
            final(self).settings.developer_tools == old(self).settings.developer_tools,
            final(self).settings.tracking_prevention == old(self).settings.tracking_prevention,
            final(self).search@ == old(self).search@,
    {
        self.settings.dark_mode = dark;
    }

    /// Shows or hides the extensions button.
    pub fn set_extensions_visible(&mut self, visible: bool)
        ensures
            final(self).settings.show_extensions == visible,
            final(self).settings.dark_mode == old(self).settings.dark_mode,
            final(self).settings.search_engine == old(self).settings.search_engine,
            final(self).settings.developer_tools == old(self).settings.developer_tools,
            final(self).settings.tracking_prevention == old(self).settings.tracking_prevention,
            final(self).search@ == old(self).search@,
    {
        self.settings.show_extensions = visible;
    }

    /// Turns the web inspector of tabs opened from now on on or off.
    pub fn set_developer_tools(&mut self, enabled: bool)
        ensures
            final(self).settings.developer_tools == enabled,
            final(self).settings.dark_mode == old(self).settings.dark_mode,
            final(self).settings.search_engine == old(self).settings.search_engine,
            final(self).settings.show_extensions == old(self).settings.show_extensions,
            final(self).settings.tracking_prevention == old(self).settings.tracking_prevention,
            final(self).search@ == old(self).search@,
    {
        self.settings.developer_tools = enabled;
    }

    /// Turns tracking prevention on or off.
    pub fn set_tracking_prevention(&mut self, enabled: bool)
        ensures
            final(self).settings.tracking_prevention == enabled,
            final(self).settings.dark_mode == old(self).settings.dark_mode,
            final(self).settings.search_engine == old(self).settings.search_engine,
            final(self).settings.show_extensions == old(self).settings.show_extensions,
            final(self).settings.developer_tools == old(self).settings.developer_tools,
            final(self).search@ == old(self).search@,
    {
        self.settings.tracking_prevention = enabled;
    }
}

} // verus!
