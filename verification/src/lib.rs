pub mod browser;
pub mod text;
pub mod theme;
pub mod i18n;
pub mod internal;
pub mod app_state;
pub mod ui;
