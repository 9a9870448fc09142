//! The logic of the installer and uninstaller.
pub mod i18n;
pub mod wizard;
pub mod setup;
