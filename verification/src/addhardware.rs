//! The Add Hardware dialog's state and its graphics page.
//!
//! The dialog's state machine is plain data: `update` maps a message to
//! the next state and an action for the window layer to perform.  The
//! graphics page's XML flow — building a fragment from state and merging
//! a decoded fragment back — lives here with its merge rules stated
//! exactly, together with the laws that the encode/decode pair obeys.

use vstd::prelude::*;
use crate::graphics::{DeviceGraphicsXml, DeviceGraphicsXmlV, GlAttr, GlAttrV, ListenAttr,
    ListenAttrV, frag_text, frag_wf, spec_decode, xml_text, lemma_decode_frag_text};

verus! {

/// Hardware pages, as in the original dialog.
#[derive(Debug, Clone, Copy, PartialEq, Eq, Structural)]
pub enum Page {
    Storage,
    Controller,
    Network,
    Input,
    Graphics,
    Sound,
    Hostdev,
    Char,
    Video,
    Watchdog,
    Filesystem,
    Smartcard,
    UsbRedir,
    Tpm,
    Rng,
    Panic,
    Vsock,
}

pub open spec fn spec_title(p: Page) -> Seq<char> {
    match p {
        Page::Storage => "Storage"@,
        Page::Controller => "Controller"@,
        Page::Network => "Network"@,
        Page::Input => "Input"@,
        Page::Graphics => "Graphics"@,
        Page::Sound => "Sound"@,
        Page::Hostdev => "Host Device"@,
        Page::Char => "Char Device"@,
        Page::Video => "Video Device"@,
        Page::Watchdog => "Watchdog"@,
        Page::Filesystem => "Filesystem"@,
        Page::Smartcard => "Smartcard"@,
        Page::UsbRedir => "USB Redirection"@,
        Page::Tpm => "TPM"@,
        Page::Rng => "Random Number Generator"@,
        Page::Panic => "Panic Notifier"@,
        Page::Vsock => "VM Sockets"@,
    }
}

impl Page {
    /// The page's heading.
    pub fn title(&self) -> (r: &'static str)
        ensures
            r@ == spec_title(*self),
    {
        match self {
            Page::Storage => "Storage",
            Page::Controller => "Controller",
            Page::Network => "Network",
            Page::Input => "Input",
            Page::Graphics => "Graphics",
            Page::Sound => "Sound",
            Page::Hostdev => "Host Device",
            Page::Char => "Char Device",
            Page::Video => "Video Device",
            Page::Watchdog => "Watchdog",
            Page::Filesystem => "Filesystem",
            Page::Smartcard => "Smartcard",
            Page::UsbRedir => "USB Redirection",
            Page::Tpm => "TPM",
            Page::Rng => "Random Number Generator",
            Page::Panic => "Panic Notifier",
            Page::Vsock => "VM Sockets",
        }
    }
}

/// The facade under which the host shows the Add Hardware dialog; the
/// window that presents the state lives outside the library.
pub struct VmmAddHardware;

/// One entry of the left navigation list.
pub struct HwEntry {
    pub label: &'static str,
    pub page: Page,
    pub enabled: bool,
    pub tooltip: Option<&'static str>,
}

/// A minimal backend surface for the dialog's host to implement.
pub trait VmBackend: Send + Sync {
    fn name(&self) -> &str;
}

/// Storage page messages.
pub enum StorageMsg {
    DeviceTypeChanged(String),
    BusChanged(String),
    PathChanged(String),
}

/// Network page messages.
pub enum NetworkMsg {
    ModelChanged(String),
    MacToggle(bool),
    MacChanged(String),
}

/// Graphics page messages.
pub enum GraphicsMsg {
    TypeChanged(String),
    ListenKindChanged(String),
    AddressChanged(String),
    PortAutoToggle(bool),
    PortChanged(i32),
    PasswordToggle(bool),
    PasswordChanged(String),
    OpenGlToggle(bool),
    RenderNodeChanged(String),
    EditXml,
}

/// Dialog-level messages.
pub enum Message {
    SelectPage(Page),
    Finish,
    Cancel,
    StorageChanged(StorageMsg),
    NetworkChanged(NetworkMsg),
    GraphicsChanged(GraphicsMsg),
    GraphicsEdited(Result<DeviceGraphicsXml, String>),
}

/// What the window layer must do after an update.
#[derive(Debug)]
pub enum UiAction {
    Idle,
    CloseWindow,
    LaunchEditor(String),
}

/// The dialog's state.
pub struct AddHardwareApp {
    pub entries: Vec<HwEntry>,
    pub current: Page,
    pub storage_device_type: String,
    pub storage_bus: String,
    pub storage_path: String,
    pub net_model_options: Vec<String>,
    pub net_model_selected: String,
    pub net_mac_enabled: bool,
    pub net_mac: String,
    pub gfx_type: String,
    pub gfx_listen_kind: String,
    pub gfx_address_options: Vec<String>,
    pub gfx_address_selected: String,
    pub gfx_port_auto: bool,
    pub gfx_port_value: i32,
    pub gfx_password_enabled: bool,
    pub gfx_password: String,
    pub gfx_opengl: bool,
    pub gfx_rendernode_options: Vec<String>,
    pub gfx_rendernode_selected: String,
    pub gfx_status: Option<String>,
    pub gfx_temp_xml_path: Option<String>,
}

/// The graphics configuration a dialog state carries, as mathematical
/// values.
pub struct GfxStateV {
    pub gtype: Seq<char>,
    pub listen_kind: Seq<char>,
    pub address: Seq<char>,
    pub port_auto: bool,
    pub port_value: int,
    pub password_enabled: bool,
    pub password: Seq<char>,
    pub opengl: bool,
    pub rendernode: Seq<char>,
}

pub open spec fn gfx_view(s: AddHardwareApp) -> GfxStateV {
    GfxStateV {
        gtype: s.gfx_type@,
        listen_kind: s.gfx_listen_kind@,
        address: s.gfx_address_selected@,
        port_auto: s.gfx_port_auto,
        port_value: s.gfx_port_value as int,
        password_enabled: s.gfx_password_enabled,
        password: s.gfx_password@,
        opengl: s.gfx_opengl,
        rendernode: s.gfx_rendernode_selected@,
    }
}

/// A configuration a dialog state can hold: the port fits in an `i32`.
pub open spec fn gfx_wf(c: GfxStateV) -> bool {
    -0x8000_0000 <= c.port_value <= 0x7fff_ffff
}

/// The encoder: which fragment a configuration maps to.
pub open spec fn spec_from_state(c: GfxStateV) -> DeviceGraphicsXmlV {
    DeviceGraphicsXmlV {
        gtype: c.gtype,
        passwd: if c.password_enabled {
            Some(c.password)
        } else {
            None
        },
        gl: if c.gtype == "spice"@ {
            Some(
                GlAttrV {
                    enable: if c.opengl {
                        "yes"@
                    } else {
                        "no"@
                    },
                },
            )
        } else {
            None
        },
        rendernode: if c.opengl && c.rendernode != "Auto"@ {
            Some(c.rendernode)
        } else {
            None
        },
        listen: Some(
            if c.listen_kind == "none"@ {
                ListenAttrV { ltype: "none"@, address: None }
            } else {
                ListenAttrV {
                    ltype: "address"@,
                    address: if c.address == "Default"@ {
                        None
                    } else {
                        Some(c.address)
                    },
                }
            },
        ),
        port: if c.listen_kind == "none"@ {
            None
        } else if c.port_auto {
            Some(-1)
        } else {
            Some(c.port_value)
        },
    }
}

/// The merge rules: how a decoded fragment replaces the configuration,
/// field by field, a decoded value winning where present.
pub open spec fn spec_apply(c: GfxStateV, x: DeviceGraphicsXmlV) -> GfxStateV {
    let c1 = if x.gtype.len() > 0 {
        GfxStateV { gtype: x.gtype, ..c }
    } else {
        c
    };
    let c2 = match x.listen {
        Some(l) => if l.ltype == "none"@ {
            GfxStateV { listen_kind: "none"@, address: "Default"@, port_auto: true, ..c1 }
        } else {
            GfxStateV {
                listen_kind: "address"@,
                address: match l.address {
                    Some(a) => a,
                    None => "Default"@,
                },
                ..c1
            }
        },
        None => c1,
    };
    let c3 = match x.port {
        Some(p) => if p == -1 {
            GfxStateV { port_auto: true, port_value: 0, ..c2 }
        } else {
            GfxStateV { port_auto: false, port_value: p, ..c2 }
        },
        None => c2,
    };
    let c4 = match x.passwd {
        Some(pw) => GfxStateV { password_enabled: true, password: pw, ..c3 },
        None => GfxStateV { password_enabled: false, password: Seq::empty(), ..c3 },
    };
    let c5 = match x.gl {
        Some(g) => GfxStateV { opengl: g.enable == "yes"@, ..c4 },
        None => GfxStateV { opengl: false, ..c4 },
    };
    GfxStateV {
        rendernode: match x.rendernode {
            Some(r) => r,
            None => "Auto"@,
        },
        ..c5
    }
}

impl DeviceGraphicsXml {
    /// Builds the fragment that the current graphics configuration
    /// denotes.
    pub fn from_state(s: &AddHardwareApp) -> (x: DeviceGraphicsXml)
        ensures
            x@ == spec_from_state(gfx_view(*s)),
    {
        let gl = if s.gfx_type == String::from_str("spice") {
            Some(
                GlAttr {
                    enable: if s.gfx_opengl {
                        String::from_str("yes")
                    } else {
                        String::from_str("no")
                    },
                },
            )
        } else {
            None
        };
        let listen = if s.gfx_listen_kind == String::from_str("none") {
            Some(ListenAttr { ltype: String::from_str("none"), address: None })
        } else {
            let addr = if s.gfx_address_selected == String::from_str("Default") {
                None
            } else {
                Some(s.gfx_address_selected.clone())
            };
            Some(ListenAttr { ltype: String::from_str("address"), address: addr })
        };
        let port = if s.gfx_listen_kind == String::from_str("none") {
            None
        } else if s.gfx_port_auto {
            Some(-1i32)
        } else {
            Some(s.gfx_port_value)
        };
        let rendernode = if s.gfx_opengl {
            if s.gfx_rendernode_selected == String::from_str("Auto") {
                None
            } else {
                Some(s.gfx_rendernode_selected.clone())
            }
        } else {
            None
        };
        DeviceGraphicsXml {
            gtype: s.gfx_type.clone(),
            passwd: if s.gfx_password_enabled {
                Some(s.gfx_password.clone())
            } else {
                None
            },
            gl,
            rendernode,
            listen,
            port,
        }
    }
}

impl AddHardwareApp {
    /// The dialog's initial state.
    pub fn new() -> (s: Self)
        ensures
            s.entries@.len() == 17,
            s.current == Page::Storage,
            s.gfx_type@ == "spice"@,
            s.gfx_listen_kind@ == "address"@,
            s.gfx_address_selected@ == "Default"@,
            s.gfx_port_auto == true,
            s.gfx_port_value == 0,
            s.gfx_password_enabled == false,
            s.gfx_password@ == Seq::<char>::empty(),
            s.gfx_opengl == false,
            s.gfx_rendernode_selected@ == "Auto"@,
            s.gfx_status is None,
            s.gfx_temp_xml_path is None,
            s.storage_device_type@ == "disk"@,
            s.storage_bus@ == "virtio"@,
            s.storage_path@ == Seq::<char>::empty(),
            s.net_model_selected@ == "Default"@,
            s.net_mac_enabled == true,
            s.net_mac@ == Seq::<char>::empty(),
    {
        let mut entries: Vec<HwEntry> = Vec::new();
        entries.push(HwEntry { label: "Storage", page: Page::Storage, enabled: true, tooltip: None });
        entries.push(HwEntry { label: "Controller", page: Page::Controller, enabled: true, tooltip: None });
        entries.push(HwEntry { label: "Network", page: Page::Network, enabled: true, tooltip: None });
        entries.push(HwEntry { label: "Input", page: Page::Input, enabled: true, tooltip: None });
        entries.push(HwEntry { label: "Graphics", page: Page::Graphics, enabled: true, tooltip: None });
        entries.push(HwEntry { label: "Sound", page: Page::Sound, enabled: true, tooltip: None });
        entries.push(HwEntry { label: "Serial/Console/Channel", page: Page::Char, enabled: true, tooltip: None });
        entries.push(HwEntry { label: "USB/PCI Hostdev", page: Page::Hostdev, enabled: true, tooltip: None });
        entries.push(HwEntry { label: "Video", page: Page::Video, enabled: true, tooltip: None });
        entries.push(HwEntry { label: "Watchdog", page: Page::Watchdog, enabled: true, tooltip: None });
        entries.push(HwEntry { label: "Filesystem", page: Page::Filesystem, enabled: true, tooltip: None });
        entries.push(HwEntry { label: "Smartcard", page: Page::Smartcard, enabled: true, tooltip: None });
        entries.push(HwEntry { label: "USB Redirection", page: Page::UsbRedir, enabled: true, tooltip: None });
        entries.push(HwEntry { label: "TPM", page: Page::Tpm, enabled: true, tooltip: None });
        entries.push(HwEntry { label: "RNG", page: Page::Rng, enabled: true, tooltip: None });
        entries.push(HwEntry { label: "Panic", page: Page::Panic, enabled: true, tooltip: None });
        entries.push(HwEntry { label: "Vsock", page: Page::Vsock, enabled: true, tooltip: None });
        let mut net_model_options: Vec<String> = Vec::new();
        net_model_options.push(String::from_str("Default"));
        net_model_options.push(String::from_str("virtio"));
        net_model_options.push(String::from_str("e1000"));
        net_model_options.push(String::from_str("rtl8139"));
        let mut gfx_address_options: Vec<String> = Vec::new();
        gfx_address_options.push(String::from_str("Default"));
        gfx_address_options.push(String::from_str("127.0.0.1"));
        gfx_address_options.push(String::from_str("0.0.0.0"));
        let mut gfx_rendernode_options: Vec<String> = Vec::new();
        gfx_rendernode_options.push(String::from_str("Auto"));
        AddHardwareApp {
            entries,
            current: Page::Storage,
            storage_device_type: String::from_str("disk"),
            storage_bus: String::from_str("virtio"),
            storage_path: String::new(),
            net_model_options,
            net_model_selected: String::from_str("Default"),
            net_mac_enabled: true,
            net_mac: String::new(),
            gfx_type: String::from_str("spice"),
            gfx_listen_kind: String::from_str("address"),
            gfx_address_options,
            gfx_address_selected: String::from_str("Default"),
            gfx_port_auto: true,
            gfx_port_value: 0,
            gfx_password_enabled: false,
            gfx_password: String::new(),
            gfx_opengl: false,
            gfx_rendernode_options,
            gfx_rendernode_selected: String::from_str("Auto"),
            gfx_status: None,
            gfx_temp_xml_path: None,
        }
    }

    /// The dialog's initial state, under the name the window layer uses.
    pub fn new_static() -> (s: Self)
        ensures
            s.gfx_type@ == "spice"@,
            s.current == Page::Storage,
    {
        Self::new()
    }

    /// `update` under the free-function shape the window layer uses.
    pub fn update_static(state: &mut Self, msg: Message) -> (r: UiAction)
        ensures
            update_rel(*old(state), *final(state), msg, r),
    {
        state.update(msg)
    }

    /// The XML text of the current graphics configuration.
    pub fn graphics_xml_string(&self) -> (r: String)
        ensures
            r@ == frag_text(spec_from_state(gfx_view(*self))),
    {
        let x = DeviceGraphicsXml::from_state(self);
        xml_text(&x)
    }

    /// Merges a decoded fragment into the graphics configuration,
    /// following the merge rules; every other field keeps its value.
    pub fn apply_graphics_from_xml(&mut self, x: DeviceGraphicsXml)
        ensures
            gfx_view(*final(self)) == spec_apply(gfx_view(*old(self)), x@),
            final(self).entries == old(self).entries,
            final(self).current == old(self).current,
            final(self).storage_device_type == old(self).storage_device_type,
            final(self).storage_bus == old(self).storage_bus,
            final(self).storage_path == old(self).storage_path,
            final(self).net_model_options == old(self).net_model_options,
            final(self).net_model_selected == old(self).net_model_selected,
            final(self).net_mac_enabled == old(self).net_mac_enabled,
            final(self).net_mac == old(self).net_mac,
            final(self).gfx_address_options == old(self).gfx_address_options,
            final(self).gfx_rendernode_options == old(self).gfx_rendernode_options,
            final(self).gfx_status == old(self).gfx_status,
            final(self).gfx_temp_xml_path == old(self).gfx_temp_xml_path,
    {
        if !x.gtype.as_str().is_empty() {
            self.gfx_type = x.gtype;
        }
        match x.listen {
            Some(lst) => {
                if lst.ltype == String::from_str("none") {
                    self.gfx_listen_kind = String::from_str("none");
                    self.gfx_address_selected = String::from_str("Default");
                    self.gfx_port_auto = true;
                } else {
                    self.gfx_listen_kind = String::from_str("address");
                    self.gfx_address_selected = match lst.address {
                        Some(a) => a,
                        None => String::from_str("Default"),
                    };
                }
            },
            None => {},
        }
        match x.port {
            Some(p) => {
                if p == -1 {
                    self.gfx_port_auto = true;
                    self.gfx_port_value = 0;
                } else {
                    self.gfx_port_auto = false;
                    self.gfx_port_value = p;
                }
            },
            None => {},
        }
        match x.passwd {
            Some(p) => {
                self.gfx_password_enabled = true;
                self.gfx_password = p;
            },
            None => {
                self.gfx_password_enabled = false;
                self.gfx_password = String::new();
            },
        }
        match x.gl {
            Some(gl) => {
                self.gfx_opengl = gl.enable == String::from_str("yes");
            },
            None => {
                self.gfx_opengl = false;
            },
        }
        self.gfx_rendernode_selected = match x.rendernode {
            Some(r) => r,
            None => String::from_str("Auto"),
        };
    }
}

/// How one message transforms the dialog state, and which action it
/// returns: the exact contract of `update`.
pub open spec fn update_rel(s0: AddHardwareApp, s1: AddHardwareApp, msg: Message, r: UiAction) -> bool {
    match msg {
        Message::SelectPage(p) => s1 == (AddHardwareApp {
            current: p,
            ..s0
        }) && r is Idle,
        Message::Finish => s1 == s0 && r is CloseWindow,
        Message::Cancel => s1 == s0 && r is CloseWindow,
        Message::StorageChanged(sm) => r is Idle && match sm {
            StorageMsg::DeviceTypeChanged(v) => s1 == (AddHardwareApp {
                storage_device_type: v,
                ..s0
            }),
            StorageMsg::BusChanged(v) => s1 == (AddHardwareApp {
                storage_bus: v,
                ..s0
            }),
            StorageMsg::PathChanged(v) => s1 == (AddHardwareApp {
                storage_path: v,
                ..s0
            }),
        },
        Message::NetworkChanged(nm) => r is Idle && match nm {
            NetworkMsg::ModelChanged(v) => s1 == (AddHardwareApp {
                net_model_selected: v,
                ..s0
            }),
            NetworkMsg::MacToggle(v) => s1 == (AddHardwareApp {
                net_mac_enabled: v,
                ..s0
            }),
            NetworkMsg::MacChanged(v) => s1 == (AddHardwareApp {
                net_mac: v,
                ..s0
            }),
        },
        Message::GraphicsChanged(gm) => match gm {
            GraphicsMsg::TypeChanged(v) => r is Idle && s1 == (AddHardwareApp {
                gfx_type: v,
                ..s0
            }),
            GraphicsMsg::ListenKindChanged(v) => r is Idle && s1
                == (AddHardwareApp { gfx_listen_kind: v, ..s0 }),
            GraphicsMsg::AddressChanged(v) => r is Idle && s1 == (AddHardwareApp {
                gfx_address_selected: v,
                ..s0
            }),
            GraphicsMsg::PortAutoToggle(v) => r is Idle && s1 == (AddHardwareApp {
                gfx_port_auto: v,
                ..s0
            }),
            GraphicsMsg::PortChanged(v) => r is Idle && s1 == (AddHardwareApp {
                gfx_port_value: v,
                ..s0
            }),
            GraphicsMsg::PasswordToggle(v) => r is Idle && s1 == (AddHardwareApp {
                gfx_password_enabled: v,
                gfx_password: s1.gfx_password,
                ..s0
            }) && s1.gfx_password_enabled == v && (v ==> s1.gfx_password
                == s0.gfx_password) && (!v ==> s1.gfx_password@
                == Seq::<char>::empty()),
            GraphicsMsg::PasswordChanged(v) => r is Idle && s1 == (AddHardwareApp {
                gfx_password: v,
                ..s0
            }),
            GraphicsMsg::OpenGlToggle(v) => r is Idle && s1 == (AddHardwareApp {
                gfx_opengl: v,
                ..s0
            }),
            GraphicsMsg::RenderNodeChanged(v) => r is Idle && s1
                == (AddHardwareApp { gfx_rendernode_selected: v, ..s0 }),
            GraphicsMsg::EditXml => s1 == s0 && (r matches
                UiAction::LaunchEditor(t) && t@ == frag_text(
                spec_from_state(gfx_view(s0)),
            )),
        },
        Message::GraphicsEdited(res) => r is Idle && match res {
            Ok(x) => gfx_view(s1) == spec_apply(gfx_view(s0), x@)
                && (s1.gfx_status matches Some(m) && m@
                == "Applied changes from XML."@) && s1.entries
                == s0.entries && s1.current == s0.current
                && s1.storage_device_type == s0.storage_device_type
                && s1.storage_bus == s0.storage_bus
                && s1.storage_path == s0.storage_path
                && s1.net_model_options == s0.net_model_options
                && s1.net_model_selected == s0.net_model_selected
                && s1.net_mac_enabled == s0.net_mac_enabled
                && s1.net_mac == s0.net_mac
                && s1.gfx_address_options == s0.gfx_address_options
                && s1.gfx_rendernode_options == s0.gfx_rendernode_options
                && s1.gfx_temp_xml_path == s0.gfx_temp_xml_path,
            Err(e) => s1 == (AddHardwareApp {
                gfx_status: s1.gfx_status,
                ..s0
            }) && (s1.gfx_status matches Some(m) && m@
                == "Failed to apply XML: "@ + e@),
        },
    }
}

impl AddHardwareApp {
    /// Applies one message to the dialog state; the result says what the
    /// window layer must do next.
    pub fn update(&mut self, msg: Message) -> (r: UiAction)
        ensures
            update_rel(*old(self), *final(self), msg, r),
    {
        match msg {
            Message::SelectPage(p) => {
                self.current = p;
                UiAction::Idle
            },
            Message::Finish => UiAction::CloseWindow,
            Message::Cancel => UiAction::CloseWindow,
            Message::StorageChanged(sm) => {
                match sm {
                    StorageMsg::DeviceTypeChanged(v) => {
                        self.storage_device_type = v;
                    },
                    StorageMsg::BusChanged(v) => {
                        self.storage_bus = v;
                    },
                    StorageMsg::PathChanged(v) => {
                        self.storage_path = v;
                    },
                }
                UiAction::Idle
            },
            Message::NetworkChanged(nm) => {
                match nm {
                    NetworkMsg::ModelChanged(v) => {
                        self.net_model_selected = v;
                    },
                    NetworkMsg::MacToggle(v) => {
                        self.net_mac_enabled = v;
                    },
                    NetworkMsg::MacChanged(v) => {
                        self.net_mac = v;
                    },
                }
                UiAction::Idle
            },
            Message::GraphicsChanged(gm) => {
                match gm {
                    GraphicsMsg::TypeChanged(v) => {
                        self.gfx_type = v;
                        UiAction::Idle
                    },
                    GraphicsMsg::ListenKindChanged(v) => {
                        self.gfx_listen_kind = v;
                        UiAction::Idle
                    },
                    GraphicsMsg::AddressChanged(v) => {
                        self.gfx_address_selected = v;
                        UiAction::Idle
                    },
                    GraphicsMsg::PortAutoToggle(v) => {
                        self.gfx_port_auto = v;
                        UiAction::Idle
                    },
                    GraphicsMsg::PortChanged(v) => {
                        self.gfx_port_value = v;
                        UiAction::Idle
                    },
                    GraphicsMsg::PasswordToggle(v) => {
                        self.gfx_password_enabled = v;
                        if !v {
                            self.gfx_password = String::new();
                        }
                        UiAction::Idle
                    },
                    GraphicsMsg::PasswordChanged(v) => {
                        self.gfx_password = v;
                        UiAction::Idle
                    },
                    GraphicsMsg::OpenGlToggle(v) => {
                        self.gfx_opengl = v;
                        UiAction::Idle
                    },
                    GraphicsMsg::RenderNodeChanged(v) => {
                        self.gfx_rendernode_selected = v;
                        UiAction::Idle
                    },
                    GraphicsMsg::EditXml => UiAction::LaunchEditor(self.graphics_xml_string()),
                }
            },
            Message::GraphicsEdited(res) => {
                match res {
                    Ok(x) => {
                        self.apply_graphics_from_xml(x);
                        self.gfx_status = Some(String::from_str("Applied changes from XML."));
                    },
                    Err(e) => {
                        let m = String::from_str("Failed to apply XML: ").concat(e.as_str());
                        self.gfx_status = Some(m);
                    },
                }
                UiAction::Idle
            },
        }
    }
}

proof fn lemma_sentinel_strings()
    ensures
        "address"@ != "none"@,
        "yes"@ != "no"@,
        "spice"@ != "none"@,
{
    reveal_strlit("address");
    reveal_strlit("none");
    reveal_strlit("yes");
    reveal_strlit("no");
    reveal_strlit("spice");
    assert("address"@.len() == 7 && "none"@.len() == 4 && "yes"@.len() == 3 && "no"@.len() == 2
        && "spice"@.len() == 5);
}

/// Round-trip identity: a configuration with listen mode `none`, once
/// encoded, decoded and merged into itself, comes back equal on every
/// merged field — the address is reset to its default sentinel and the
/// port is forced to auto, the one documented non-identity.  The
/// configuration must not carry what the encoding drops: a password kept
/// while disabled, a render node kept while OpenGL is off, or OpenGL
/// enabled on a non-SPICE display.
pub proof fn lemma_round_trip_listen_none(c: GfxStateV)
    requires
        gfx_wf(c),
        c.listen_kind == "none"@,
        !c.password_enabled ==> c.password == Seq::<char>::empty(),
        !c.opengl ==> c.rendernode == "Auto"@,
        c.gtype != "spice"@ ==> !c.opengl,
    ensures
        spec_decode(frag_text(spec_from_state(c))) == Some(spec_from_state(c)),
        spec_apply(c, spec_from_state(c)) == (GfxStateV {
            address: "Default"@,
            port_auto: true,
            ..c
        }),
{
    lemma_decode_frag_text(spec_from_state(c));
    lemma_sentinel_strings();
}

/// Idempotence: encode, decode, merge, encode again gives the identical
/// text, for any configuration whose OpenGL flag is only set on a SPICE
/// display (with another display type the encoder drops the `gl`
/// element, so the flag itself would not survive).
pub proof fn lemma_encode_idempotent(c: GfxStateV)
    requires
        gfx_wf(c),
        c.opengl ==> c.gtype == "spice"@,
    ensures
        spec_decode(frag_text(spec_from_state(c))) == Some(spec_from_state(c)),
        spec_from_state(spec_apply(c, spec_from_state(c))) == spec_from_state(c),
        frag_text(spec_from_state(spec_apply(c, spec_from_state(c)))) == frag_text(
            spec_from_state(c),
        ),
{
    lemma_decode_frag_text(spec_from_state(c));
    lemma_sentinel_strings();
    let f = spec_from_state(c);
    let c2 = spec_apply(c, f);
    assert(spec_from_state(c2) == f);
}

/// Default suppression: with listen mode `address` and the address left
/// at its default sentinel, the `listen` element carries no `address`
/// attribute, and decoding the encoded text yields the sentinel again
/// after the merge.
pub proof fn lemma_default_address_suppressed(c: GfxStateV)
    requires
        gfx_wf(c),
        c.listen_kind != "none"@,
        c.address == "Default"@,
    ensures
        spec_from_state(c).listen == Some(ListenAttrV { ltype: "address"@, address: None }),
        spec_decode(frag_text(spec_from_state(c))) == Some(spec_from_state(c)),
        spec_apply(c, spec_from_state(c)).address == "Default"@,
{
    lemma_decode_frag_text(spec_from_state(c));
    lemma_sentinel_strings();
}

/// Auto-port: with listen mode `address` and the port on auto, the
/// encoded port is `-1`; merging the decoded fragment keeps the port on
/// auto and resets the stored port number to zero, whatever it was.
pub proof fn lemma_auto_port(c: GfxStateV)
    requires
        gfx_wf(c),
        c.listen_kind != "none"@,
        c.port_auto,
    ensures
        spec_from_state(c).port == Some(-1),
        spec_decode(frag_text(spec_from_state(c))) == Some(spec_from_state(c)),
        spec_apply(c, spec_from_state(c)).port_auto == true,
        spec_apply(c, spec_from_state(c)).port_value == 0,
{
    lemma_decode_frag_text(spec_from_state(c));
    lemma_sentinel_strings();
}

/// A missing `passwd` attribute disables the password: merging any
/// fragment without one clears the password and its flag, whatever the
/// configuration held before.
pub proof fn lemma_password_absent_disables(c: GfxStateV, x: DeviceGraphicsXmlV)
    requires
        x.passwd is None,
    ensures
        spec_apply(c, x).password_enabled == false,
        spec_apply(c, x).password == Seq::<char>::empty(),
{
}

} // verus!
