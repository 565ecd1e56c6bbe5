//! Verified core of a virtual-machine manager front end.
//!
//! The library covers the logic of the "Add Hardware" dialog's graphics
//! page: encoding the in-memory graphics configuration as a libvirt
//! `<graphics>` XML fragment, parsing such a fragment back, merging the
//! parsed fields into the configuration, and the decision steps of the
//! external-editor session.  Window plumbing and all I/O live outside the
//! library.

pub mod about;
pub mod addhardware;
pub mod app;
pub mod editor;
pub mod graphics;
pub mod num;
pub mod text;
pub mod xml;

pub use about::{AboutDialogManager, VmmAbout};
pub use addhardware::VmmAddHardware;
pub use editor::resolve_editor;
