pub mod text;
pub mod i18n;
pub mod tools;
pub mod registry;
pub mod paths;
pub mod launcher;
pub mod app_state;
