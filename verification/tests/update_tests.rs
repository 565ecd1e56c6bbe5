use libvirtmanager::addhardware::{
    AddHardwareApp, GraphicsMsg, Message, NetworkMsg, Page, StorageMsg, UiAction,
};
use libvirtmanager::app::{MainApp, Message as MainMessage};
use libvirtmanager::graphics::DeviceGraphicsXml;

#[test]
fn page_titles() {
    assert_eq!(Page::Storage.title(), "Storage");
    assert_eq!(Page::Graphics.title(), "Graphics");
    assert_eq!(Page::Hostdev.title(), "Host Device");
    assert_eq!(Page::Rng.title(), "Random Number Generator");
    assert_eq!(Page::Vsock.title(), "VM Sockets");
}

#[test]
fn select_page_changes_current() {
    let mut s = AddHardwareApp::new();
    assert_eq!(s.current, Page::Storage);
    let a = s.update(Message::SelectPage(Page::Graphics));
    assert!(matches!(a, UiAction::Idle));
    assert_eq!(s.current, Page::Graphics);
}

#[test]
fn finish_and_cancel_close_the_window() {
    let mut s = AddHardwareApp::new();
    assert!(matches!(s.update(Message::Finish), UiAction::CloseWindow));
    assert!(matches!(s.update(Message::Cancel), UiAction::CloseWindow));
}

#[test]
fn storage_and_network_messages_update_fields() {
    let mut s = AddHardwareApp::new();
    s.update(Message::StorageChanged(StorageMsg::BusChanged("sata".to_string())));
    assert_eq!(s.storage_bus, "sata");
    s.update(Message::NetworkChanged(NetworkMsg::MacToggle(false)));
    assert!(!s.net_mac_enabled);
    s.update(Message::NetworkChanged(NetworkMsg::MacChanged("52:54:00:ab:cd:ef".to_string())));
    assert_eq!(s.net_mac, "52:54:00:ab:cd:ef");
}

#[test]
fn password_toggle_off_clears_password() {
    let mut s = AddHardwareApp::new();
    s.update(Message::GraphicsChanged(GraphicsMsg::PasswordToggle(true)));
    s.update(Message::GraphicsChanged(GraphicsMsg::PasswordChanged("pw".to_string())));
    assert_eq!(s.gfx_password, "pw");
    s.update(Message::GraphicsChanged(GraphicsMsg::PasswordToggle(false)));
    assert!(!s.gfx_password_enabled);
    assert_eq!(s.gfx_password, "");
}

#[test]
fn edit_xml_returns_the_encoded_text() {
    let mut s = AddHardwareApp::new();
    let expected = s.graphics_xml_string();
    match s.update(Message::GraphicsChanged(GraphicsMsg::EditXml)) {
        UiAction::LaunchEditor(xml) => assert_eq!(xml, expected),
        _ => panic!("expected an editor launch"),
    }
}

#[test]
fn graphics_edited_ok_applies_and_reports() {
    let mut s = AddHardwareApp::new();
    let x = DeviceGraphicsXml::decode("<graphics type=\"vnc\" port=\"5907\"/>").unwrap();
    let a = s.update(Message::GraphicsEdited(Ok(x)));
    assert!(matches!(a, UiAction::Idle));
    assert_eq!(s.gfx_type, "vnc");
    assert!(!s.gfx_port_auto);
    assert_eq!(s.gfx_port_value, 5907);
    assert_eq!(s.gfx_status.as_deref(), Some("Applied changes from XML."));
}

#[test]
fn graphics_edited_err_reports_and_keeps_state() {
    let mut s = AddHardwareApp::new();
    let before = s.graphics_xml_string();
    s.update(Message::GraphicsEdited(Err("XML parse error: oops".to_string())));
    assert_eq!(
        s.gfx_status.as_deref(),
        Some("Failed to apply XML: XML parse error: oops")
    );
    assert_eq!(s.graphics_xml_string(), before);
}

#[test]
fn main_app_toggles_dialog() {
    let mut m = MainApp::new();
    assert!(!m.show_add_hw);
    m.update(MainMessage::ShowAddHardware);
    assert!(m.show_add_hw);
    m.update(MainMessage::AddHardware(Message::SelectPage(Page::Network)));
    assert_eq!(m.add_hw.current, Page::Network);
    m.update(MainMessage::CloseAddHardware);
    assert!(!m.show_add_hw);
}
