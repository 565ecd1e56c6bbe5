use libvirtmanager::about::{AboutDialogManager, VmmAbout};

#[test]
fn test_about_creation() {
    let about = VmmAbout::new("1.0.0".to_string());
    assert_eq!(about.app_version, "1.0.0");
}

#[test]
fn test_close_returns_one() {
    let mut manager = AboutDialogManager::get_instance();
    assert_eq!(manager.close(), 1);
}

#[test]
fn show_records_version() {
    let mut manager = AboutDialogManager::get_instance();
    assert!(manager.instance.is_none());
    manager.show("5.1.0");
    assert_eq!(manager.instance.as_ref().unwrap().app_version, "5.1.0");
    manager.cleanup();
    assert!(manager.instance.is_none());
}
