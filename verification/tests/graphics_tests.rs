use libvirtmanager::addhardware::AddHardwareApp;
use libvirtmanager::graphics::{DecodeError, DeviceGraphicsXml, GlAttr, ListenAttr, xml_text};

const HEADER: &str = "<?xml version=\"1.0\" encoding=\"UTF-8\"?>\n";

#[test]
fn encode_default_state_is_canonical() {
    let s = AddHardwareApp::new();
    let xml = s.graphics_xml_string();
    let expected = format!(
        "{}<graphics type=\"spice\" port=\"-1\"><gl enable=\"no\"/><listen type=\"address\"/></graphics>\n",
        HEADER
    );
    assert_eq!(xml, expected);
}

#[test]
fn encode_full_state() {
    let mut s = AddHardwareApp::new();
    s.gfx_password_enabled = true;
    s.gfx_password = "sesame".to_string();
    s.gfx_opengl = true;
    s.gfx_rendernode_selected = "/dev/dri/renderD128".to_string();
    s.gfx_port_auto = false;
    s.gfx_port_value = 5901;
    s.gfx_address_selected = "127.0.0.1".to_string();
    let xml = s.graphics_xml_string();
    let expected = format!(
        "{}<graphics type=\"spice\" passwd=\"sesame\" rendernode=\"/dev/dri/renderD128\" port=\"5901\"><gl enable=\"yes\"/><listen type=\"address\" address=\"127.0.0.1\"/></graphics>\n",
        HEADER
    );
    assert_eq!(xml, expected);
}

#[test]
fn decode_canonical_text() {
    let text = format!(
        "{}<graphics type=\"vnc\" port=\"5900\"><listen type=\"address\" address=\"0.0.0.0\"/></graphics>\n",
        HEADER
    );
    let x = DeviceGraphicsXml::decode(&text).unwrap();
    assert_eq!(x.gtype, "vnc");
    assert_eq!(x.port, Some(5900));
    assert!(x.passwd.is_none());
    assert!(x.gl.is_none());
    assert!(x.rendernode.is_none());
    let listen = x.listen.unwrap();
    assert_eq!(listen.ltype, "address");
    assert_eq!(listen.address.as_deref(), Some("0.0.0.0"));
}

#[test]
fn decode_accepts_extra_whitespace_and_no_header() {
    let x = DeviceGraphicsXml::decode("  <graphics type=\"vnc\"/> \n").unwrap();
    assert_eq!(x.gtype, "vnc");
    assert!(x.listen.is_none());
    assert!(x.port.is_none());
}

#[test]
fn decode_malformed_text_is_parse_error() {
    assert!(matches!(
        DeviceGraphicsXml::decode("this is not xml at all"),
        Err(DecodeError::Parse)
    ));
    assert!(matches!(DeviceGraphicsXml::decode(""), Err(DecodeError::Parse)));
    assert!(matches!(
        DeviceGraphicsXml::decode("<graphics type=\"spice\">"),
        Err(DecodeError::Parse)
    ));
    assert!(matches!(
        DeviceGraphicsXml::decode("<video type=\"qxl\"/>"),
        Err(DecodeError::Parse)
    ));
    assert!(matches!(
        DeviceGraphicsXml::decode("<graphics port=\"fifty\"/>"),
        Err(DecodeError::Parse)
    ));
    assert!(matches!(
        DeviceGraphicsXml::decode("<graphics port=\"99999999999\"/>"),
        Err(DecodeError::Parse)
    ));
}

#[test]
fn malformed_xml_leaves_state_untouched() {
    let mut s = AddHardwareApp::new();
    s.gfx_port_value = 7777;
    let before = s.graphics_xml_string();
    let decoded = DeviceGraphicsXml::decode("<<<< broken");
    assert!(decoded.is_err());
    // only a successful decode is ever merged, so the state is unchanged
    assert_eq!(s.graphics_xml_string(), before);
    assert_eq!(s.gfx_port_value, 7777);
}

#[test]
fn password_round_trips_with_escaping() {
    let mut s = AddHardwareApp::new();
    s.gfx_password_enabled = true;
    s.gfx_password = "a&b<c>\"d'e".to_string();
    let xml = s.graphics_xml_string();
    assert!(xml.contains("passwd=\"a&amp;b&lt;c&gt;&quot;d&apos;e\""));
    let x = DeviceGraphicsXml::decode(&xml).unwrap();
    assert_eq!(x.passwd.as_deref(), Some("a&b<c>\"d'e"));
}

#[test]
fn round_trip_listen_none_resets_address_and_port() {
    let mut s = AddHardwareApp::new();
    s.gfx_listen_kind = "none".to_string();
    s.gfx_address_selected = "127.0.0.1".to_string();
    s.gfx_port_auto = false;
    s.gfx_port_value = 5902;
    let xml = s.graphics_xml_string();
    assert!(!xml.contains("port="));
    assert!(!xml.contains("address="));
    let x = DeviceGraphicsXml::decode(&xml).unwrap();
    s.apply_graphics_from_xml(x);
    assert_eq!(s.gfx_listen_kind, "none");
    assert_eq!(s.gfx_address_selected, "Default");
    assert!(s.gfx_port_auto);
    assert_eq!(s.gfx_port_value, 5902);
    assert_eq!(s.gfx_type, "spice");
}

#[test]
fn encode_decode_merge_encode_is_identical() {
    let mut s = AddHardwareApp::new();
    s.gfx_password_enabled = true;
    s.gfx_password = "pw".to_string();
    s.gfx_port_auto = false;
    s.gfx_port_value = 5900;
    let first = s.graphics_xml_string();
    let x = DeviceGraphicsXml::decode(&first).unwrap();
    s.apply_graphics_from_xml(x);
    let second = s.graphics_xml_string();
    assert_eq!(first, second);
}

#[test]
fn default_address_is_suppressed_and_restored() {
    let s = AddHardwareApp::new();
    assert_eq!(s.gfx_address_selected, "Default");
    let xml = s.graphics_xml_string();
    assert!(xml.contains("<listen type=\"address\"/>"));
    assert!(!xml.contains("address=\""));
    let x = DeviceGraphicsXml::decode(&xml).unwrap();
    let mut t = AddHardwareApp::new();
    t.apply_graphics_from_xml(x);
    assert_eq!(t.gfx_address_selected, "Default");
}

#[test]
fn auto_port_encodes_minus_one_and_resets_value() {
    let mut s = AddHardwareApp::new();
    s.gfx_port_auto = true;
    s.gfx_port_value = 4242;
    let xml = s.graphics_xml_string();
    assert!(xml.contains("port=\"-1\""));
    let x = DeviceGraphicsXml::decode(&xml).unwrap();
    assert_eq!(x.port, Some(-1));
    s.apply_graphics_from_xml(x);
    assert!(s.gfx_port_auto);
    assert_eq!(s.gfx_port_value, 0);
}

#[test]
fn password_absence_disables_password() {
    let mut s = AddHardwareApp::new();
    s.gfx_password_enabled = true;
    s.gfx_password = "secret".to_string();
    let x = DeviceGraphicsXml {
        gtype: "spice".to_string(),
        passwd: None,
        gl: None,
        rendernode: None,
        listen: None,
        port: None,
    };
    s.apply_graphics_from_xml(x);
    assert!(!s.gfx_password_enabled);
    assert_eq!(s.gfx_password, "");
}

#[test]
fn merge_adopts_type_only_when_nonempty() {
    let mut s = AddHardwareApp::new();
    let x = DeviceGraphicsXml {
        gtype: String::new(),
        passwd: None,
        gl: None,
        rendernode: None,
        listen: None,
        port: None,
    };
    s.apply_graphics_from_xml(x);
    assert_eq!(s.gfx_type, "spice");
    let y = DeviceGraphicsXml {
        gtype: "vnc".to_string(),
        passwd: None,
        gl: None,
        rendernode: None,
        listen: None,
        port: None,
    };
    s.apply_graphics_from_xml(y);
    assert_eq!(s.gfx_type, "vnc");
}

#[test]
fn merge_gl_and_rendernode_rules() {
    let mut s = AddHardwareApp::new();
    s.gfx_opengl = true;
    s.gfx_rendernode_selected = "/dev/dri/renderD128".to_string();
    let x = DeviceGraphicsXml {
        gtype: "spice".to_string(),
        passwd: None,
        gl: Some(GlAttr { enable: "yes".to_string() }),
        rendernode: None,
        listen: None,
        port: None,
    };
    s.apply_graphics_from_xml(x);
    assert!(s.gfx_opengl);
    // a missing rendernode resets the selection to auto-detect
    assert_eq!(s.gfx_rendernode_selected, "Auto");
    let y = DeviceGraphicsXml {
        gtype: String::new(),
        passwd: None,
        gl: None,
        rendernode: Some("/dev/dri/renderD129".to_string()),
        listen: None,
        port: None,
    };
    s.apply_graphics_from_xml(y);
    // a missing gl element is an explicit disable
    assert!(!s.gfx_opengl);
    assert_eq!(s.gfx_rendernode_selected, "/dev/dri/renderD129");
}

#[test]
fn merge_listen_none_from_fragment() {
    let mut s = AddHardwareApp::new();
    s.gfx_port_auto = false;
    let x = DeviceGraphicsXml {
        gtype: String::new(),
        passwd: None,
        gl: None,
        rendernode: None,
        listen: Some(ListenAttr { ltype: "none".to_string(), address: None }),
        port: None,
    };
    s.apply_graphics_from_xml(x);
    assert_eq!(s.gfx_listen_kind, "none");
    assert_eq!(s.gfx_address_selected, "Default");
    assert!(s.gfx_port_auto);
}

#[test]
fn vnc_never_emits_gl() {
    let mut s = AddHardwareApp::new();
    s.gfx_type = "vnc".to_string();
    s.gfx_opengl = true;
    let xml = s.graphics_xml_string();
    assert!(!xml.contains("<gl"));
}

#[test]
fn from_state_matches_fields() {
    let mut s = AddHardwareApp::new();
    s.gfx_type = "vnc".to_string();
    s.gfx_port_auto = false;
    s.gfx_port_value = -7;
    let x = DeviceGraphicsXml::from_state(&s);
    assert_eq!(x.gtype, "vnc");
    assert!(x.gl.is_none());
    assert_eq!(x.port, Some(-7));
    let xml = xml_text(&x);
    assert!(xml.contains("port=\"-7\""));
    let back = DeviceGraphicsXml::decode(&xml).unwrap();
    assert_eq!(back.port, Some(-7));
}
