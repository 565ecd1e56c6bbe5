//! The About dialog's state.
//!
//! The dialog itself is a window the host application opens; here lives
//! what can be stated of it: the version it shows and the manager that
//! owns the one visible instance.  The manager is held by the
//! application's composition root, which keeps it single.

use vstd::prelude::*;

verus! {

/// The About dialog's state: the version string it displays.
pub struct VmmAbout {
    pub app_version: String,
}

impl VmmAbout {
    /// A dialog state showing the given version.
    pub fn new(app_version: String) -> (r: Self)
        ensures
            r.app_version == app_version,
    {
        VmmAbout { app_version }
    }
}

/// Owns the at-most-one About dialog instance.
pub struct AboutDialogManager {
    pub instance: Option<VmmAbout>,
}

impl AboutDialogManager {
    /// A manager with no dialog visible.  The composition root holds the
    /// single manager and passes it where it is needed.
    pub fn get_instance() -> (r: Self)
        ensures
            r.instance is None,
    {
        AboutDialogManager { instance: None }
    }

    /// Records the dialog as shown with the given version.
    pub fn show(&mut self, app_version: &str)
        ensures
            final(self).instance matches Some(a) && a.app_version@ == app_version@,
    {
        self.instance = Some(VmmAbout::new(String::from_str(app_version)));
    }

    /// Closes the dialog.
    pub fn close(&mut self) -> (r: i32)
        ensures
            r == 1,
            final(self).instance is None,
    {
        self.instance = None;
        1
    }

    /// Releases the dialog, if one is held.
    pub fn cleanup(&mut self)
        ensures
            final(self).instance is None,
    {
        self.instance = None;
    }
}

} // verus!
