use vstd::prelude::*;

pub mod color;
pub mod text;
pub mod i18n;
pub mod config;
pub mod settings;
pub mod magnifier;
pub mod ui;
pub mod installer;

verus! {

} // verus!
