//! Verified core of a window switcher: the window list, fuzzy filtering,
//! selection and scrolling, the gdbus protocol it speaks, and the layout
//! decisions behind the rendered list.

pub mod text;
pub mod gdbus;
pub mod fuzzy;
pub mod window_switcher;
pub mod laws;
pub mod layout;
pub mod input;
pub mod rendering;
pub mod fonts;
