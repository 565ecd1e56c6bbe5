//! The `<graphics>` device fragment of libvirt domain XML.
//!
//! `DeviceGraphicsXml` mirrors the fragment's fields; `xml_text` writes
//! the one canonical text of a fragment, and `decode` reads a text back.
//! `frag_text` and `spec_decode` state both exactly.

use vstd::prelude::*;
use crate::num::{int_text, parse_i32_text, i32_text, parse_i32};
use crate::text::escape_text;
use crate::num::lemma_parse_int_text;
use crate::xml::{XmlAttr, XmlAttrV, XmlElem, XmlElemV, attrs_view, elems_view, attr_text,
    attr_of, child_of, parse_document, parse_document_exec, find_attr, find_child, append_attr,
    skip_ws, name_len, parse_attrs, parse_child, parse_children, parse_root, skip_decl,
    lemma_skip_ws_concat, lemma_name_len_concat, lemma_parse_attrs_attr, lemma_parse_attrs_stop,
    lemma_attr_of_concat, lemma_child_of_concat, lemma_parse_child_elem};
use crate::text::{is_ws, is_name_char};

verus! {

/// The `<gl enable="yes|no"/>` child element.
pub struct GlAttr {
    pub enable: String,
}

pub struct GlAttrV {
    pub enable: Seq<char>,
}

impl View for GlAttr {
    type V = GlAttrV;

    open spec fn view(&self) -> GlAttrV {
        GlAttrV { enable: self.enable@ }
    }
}

/// The `<listen type="address|none" address="..."/>` child element.
pub struct ListenAttr {
    pub ltype: String,
    pub address: Option<String>,
}

pub struct ListenAttrV {
    pub ltype: Seq<char>,
    pub address: Option<Seq<char>>,
}

impl View for ListenAttr {
    type V = ListenAttrV;

    open spec fn view(&self) -> ListenAttrV {
        ListenAttrV {
            ltype: self.ltype@,
            address: match self.address {
                Some(a) => Some(a@),
                None => None,
            },
        }
    }
}

/// One `<graphics>` fragment: the subset of the libvirt schema this
/// dialog edits.
pub struct DeviceGraphicsXml {
    pub gtype: String,
    pub passwd: Option<String>,
    pub gl: Option<GlAttr>,
    pub rendernode: Option<String>,
    pub listen: Option<ListenAttr>,
    pub port: Option<i32>,
}

pub struct DeviceGraphicsXmlV {
    pub gtype: Seq<char>,
    pub passwd: Option<Seq<char>>,
    pub gl: Option<GlAttrV>,
    pub rendernode: Option<Seq<char>>,
    pub listen: Option<ListenAttrV>,
    pub port: Option<int>,
}

impl View for DeviceGraphicsXml {
    type V = DeviceGraphicsXmlV;

    open spec fn view(&self) -> DeviceGraphicsXmlV {
        DeviceGraphicsXmlV {
            gtype: self.gtype@,
            passwd: match self.passwd {
                Some(p) => Some(p@),
                None => None,
            },
            gl: match self.gl {
                Some(g) => Some(g@),
                None => None,
            },
            rendernode: match self.rendernode {
                Some(r) => Some(r@),
                None => None,
            },
            listen: match self.listen {
                Some(l) => Some(l@),
                None => None,
            },
            port: match self.port {
                Some(p) => Some(p as int),
                None => None,
            },
        }
    }
}

/// An attribute that may be absent.
pub open spec fn opt_attr_text(name: Seq<char>, value: Option<Seq<char>>) -> Seq<char> {
    match value {
        Some(v) => attr_text(name, v),
        None => Seq::empty(),
    }
}

pub open spec fn port_attr_text(port: Option<int>) -> Seq<char> {
    match port {
        Some(p) => attr_text("port"@, int_text(p)),
        None => Seq::empty(),
    }
}

pub open spec fn gl_text(gl: Option<GlAttrV>) -> Seq<char> {
    match gl {
        Some(g) => "<gl"@ + attr_text("enable"@, g.enable) + "/>"@,
        None => Seq::empty(),
    }
}

pub open spec fn listen_text(listen: Option<ListenAttrV>) -> Seq<char> {
    match listen {
        Some(l) => "<listen"@ + attr_text("type"@, l.ltype) + opt_attr_text("address"@, l.address)
            + "/>"@,
        None => Seq::empty(),
    }
}

/// The root element's text: the `graphics` element with its attributes
/// and, where present, its children.
pub open spec fn frag_body(x: DeviceGraphicsXmlV) -> Seq<char> {
    "<graphics"@ + attr_text("type"@, x.gtype) + opt_attr_text("passwd"@, x.passwd)
        + opt_attr_text("rendernode"@, x.rendernode) + port_attr_text(x.port) + (match (
        x.gl,
        x.listen,
    ) {
        (Option::<GlAttrV>::None, Option::<ListenAttrV>::None) => "/>\n"@,
        (gl, listen) => ">"@ + gl_text(gl) + listen_text(listen) + "</graphics>\n"@,
    })
}

/// The canonical text of a fragment: a declaration line, the `graphics`
/// element, and a final newline.
pub open spec fn frag_text(x: DeviceGraphicsXmlV) -> Seq<char> {
    "<?xml version=\"1.0\" encoding=\"UTF-8\"?>\n"@ + frag_body(x)
}

/// `frag_text` laid out as the writer appends it.
proof fn lemma_frag_text_assemble(x: DeviceGraphicsXmlV)
    ensures
        frag_text(x) == "<?xml version=\"1.0\" encoding=\"UTF-8\"?>\n"@ + "<graphics"@
            + attr_text("type"@, x.gtype) + opt_attr_text("passwd"@, x.passwd) + opt_attr_text(
            "rendernode"@,
            x.rendernode,
        ) + port_attr_text(x.port) + (match (x.gl, x.listen) {
            (Option::<GlAttrV>::None, Option::<ListenAttrV>::None) => "/>\n"@,
            (gl, listen) => ">"@ + gl_text(gl) + listen_text(listen) + "</graphics>\n"@,
        }),
{
    assert(frag_text(x) =~= "<?xml version=\"1.0\" encoding=\"UTF-8\"?>\n"@ + "<graphics"@
        + attr_text("type"@, x.gtype) + opt_attr_text("passwd"@, x.passwd) + opt_attr_text(
        "rendernode"@,
        x.rendernode,
    ) + port_attr_text(x.port) + (match (x.gl, x.listen) {
        (Option::<GlAttrV>::None, Option::<ListenAttrV>::None) => "/>\n"@,
        (gl, listen) => ">"@ + gl_text(gl) + listen_text(listen) + "</graphics>\n"@,
    }));
}

/// Writes the canonical text of a fragment.
#[verifier::rlimit(80)]
pub fn xml_text(x: &DeviceGraphicsXml) -> (r: String)
    ensures
        r@ == frag_text(x@),
{
    let mut out = String::from_str("<?xml version=\"1.0\" encoding=\"UTF-8\"?>\n");
    out.append("<graphics");
    append_attr(&mut out, "type", x.gtype.as_str());
    let ghost s2 = out@;
    match &x.passwd {
        Some(p) => append_attr(&mut out, "passwd", p.as_str()),
        None => {},
    }
    proof {
        assert(out@ =~= s2 + opt_attr_text("passwd"@, x@.passwd));
    }
    let ghost s3 = s2 + opt_attr_text("passwd"@, x@.passwd);
    match &x.rendernode {
        Some(r) => append_attr(&mut out, "rendernode", r.as_str()),
        None => {},
    }
    proof {
        assert(out@ =~= s3 + opt_attr_text("rendernode"@, x@.rendernode));
    }
    let ghost s4 = s3 + opt_attr_text("rendernode"@, x@.rendernode);
    match &x.port {
        Some(p) => {
            let t = i32_text(*p);
            append_attr(&mut out, "port", t.as_str());
        },
        None => {},
    }
    proof {
        assert(out@ =~= s4 + port_attr_text(x@.port));
    }
    let ghost head = s4 + port_attr_text(x@.port);
    let no_children = match (&x.gl, &x.listen) {
        (Option::<GlAttr>::None, Option::<ListenAttr>::None) => true,
        _ => false,
    };
    if no_children {
        out.append("/>\n");
        proof {
            lemma_frag_text_assemble(x@);
        }
    } else {
        out.append(">");
        let ghost s5 = out@;
        match &x.gl {
            Some(g) => {
                out.append("<gl");
                append_attr(&mut out, "enable", g.enable.as_str());
                out.append("/>");
            },
            None => {},
        }
        proof {
            assert(out@ =~= s5 + gl_text(x@.gl));
        }
        let ghost s6 = s5 + gl_text(x@.gl);
        match &x.listen {
            Some(l) => {
                out.append("<listen");
                append_attr(&mut out, "type", l.ltype.as_str());
                let ghost s7 = out@;
                match &l.address {
                    Some(a) => append_attr(&mut out, "address", a.as_str()),
                    None => {},
                }
                proof {
                    assert(out@ =~= s7 + opt_attr_text("address"@, x@.listen->0.address));
                }
                out.append("/>");
            },
            None => {},
        }
        proof {
            assert(out@ =~= s6 + listen_text(x@.listen));
        }
        out.append("</graphics>\n");
        proof {
            assert(out@ =~= head + (">"@ + gl_text(x@.gl) + listen_text(x@.listen)
                + "</graphics>\n"@));
            lemma_frag_text_assemble(x@);
            assert(out@ == frag_text(x@));
        }
    }
    out
}

/// A failed read of a fragment: the text does not follow the grammar.
#[derive(Debug, PartialEq, Eq, Structural)]
pub enum DecodeError {
    Parse,
}

/// The `port` field of a parsed element: absent, present with a valid
/// value, or a reason to reject the document.
pub open spec fn port_field(attrs: Seq<XmlAttrV>) -> Option<Option<int>> {
    match attr_of(attrs, "port"@) {
        Some(raw) => match parse_i32_text(raw) {
            Some(v) => Some(Some(v)),
            None => None,
        },
        None => Some(None),
    }
}

pub open spec fn gl_field(kids: Seq<XmlElemV>) -> Option<Option<GlAttrV>> {
    match child_of(kids, "gl"@) {
        Some(e) => match attr_of(e.attrs, "enable"@) {
            Some(en) => Some(Some(GlAttrV { enable: en })),
            None => None,
        },
        None => Some(None),
    }
}

pub open spec fn listen_field(kids: Seq<XmlElemV>) -> Option<Option<ListenAttrV>> {
    match child_of(kids, "listen"@) {
        Some(e) => match attr_of(e.attrs, "type"@) {
            Some(lt) => Some(
                Some(ListenAttrV { ltype: lt, address: attr_of(e.attrs, "address"@) }),
            ),
            None => None,
        },
        None => Some(None),
    }
}

/// The fragment carried by a parsed `graphics` element; `None` where a
/// child lacks its required attribute or the port is not a valid number.
pub open spec fn interpret(attrs: Seq<XmlAttrV>, kids: Seq<XmlElemV>) -> Option<
    DeviceGraphicsXmlV,
> {
    match (port_field(attrs), gl_field(kids), listen_field(kids)) {
        (Some(port), Some(gl), Some(listen)) => Some(
            DeviceGraphicsXmlV {
                gtype: match attr_of(attrs, "type"@) {
                    Some(v) => v,
                    None => Seq::empty(),
                },
                passwd: attr_of(attrs, "passwd"@),
                gl,
                rendernode: attr_of(attrs, "rendernode"@),
                listen,
                port,
            },
        ),
        _ => None,
    }
}

/// What `decode` accepts: a well-formed document whose root element is
/// named `graphics`, interpreted field by field.
pub open spec fn spec_decode(s: Seq<char>) -> Option<DeviceGraphicsXmlV> {
    match parse_document(s) {
        Some((root, kids)) => if root.name == "graphics"@ {
            interpret(root.attrs, kids)
        } else {
            None
        },
        None => None,
    }
}

fn interpret_exec(attrs: &Vec<XmlAttr>, kids: &Vec<XmlElem>) -> (r: Result<
    DeviceGraphicsXml,
    DecodeError,
>)
    ensures
        match r {
            Ok(x) => interpret(attrs_view(attrs@), elems_view(kids@)) == Some(x@),
            Err(_) => interpret(attrs_view(attrs@), elems_view(kids@)) is None,
        },
{
    let port: Option<i32> = match find_attr(attrs, &String::from_str("port")) {
        Some(raw) => match parse_i32(raw.as_str()) {
            Some(v) => Some(v),
            None => {
                return Err(DecodeError::Parse);
            },
        },
        None => None,
    };
    let gl: Option<GlAttr> = match find_child(kids, &String::from_str("gl")) {
        Some(j) => match find_attr(&kids[j].attrs, &String::from_str("enable")) {
            Some(en) => Some(GlAttr { enable: en }),
            None => {
                return Err(DecodeError::Parse);
            },
        },
        None => None,
    };
    let listen: Option<ListenAttr> = match find_child(kids, &String::from_str("listen")) {
        Some(j) => match find_attr(&kids[j].attrs, &String::from_str("type")) {
            Some(lt) => Some(
                ListenAttr { ltype: lt, address: find_attr(&kids[j].attrs, &String::from_str("address")) },
            ),
            None => {
                return Err(DecodeError::Parse);
            },
        },
        None => None,
    };
    let gtype: String = match find_attr(attrs, &String::from_str("type")) {
        Some(v) => v,
        None => String::new(),
    };
    let passwd = find_attr(attrs, &String::from_str("passwd"));
    let rendernode = find_attr(attrs, &String::from_str("rendernode"));
    Ok(DeviceGraphicsXml { gtype, passwd, gl, rendernode, listen, port })
}

impl DeviceGraphicsXml {
    /// Reads a fragment from text; `Err` exactly where the text does not
    /// follow the grammar.
    pub fn decode(s: &str) -> (r: Result<DeviceGraphicsXml, DecodeError>)
        ensures
            match r {
                Ok(x) => spec_decode(s@) == Some(x@),
                Err(e) => spec_decode(s@) is None && e == DecodeError::Parse,
            },
    {
        match parse_document_exec(s) {
            Some(p) => {
                let (root, kids) = p;
                if root.name == String::from_str("graphics") {
                    interpret_exec(&root.attrs, &kids)
                } else {
                    Err(DecodeError::Parse)
                }
            },
            None => Err(DecodeError::Parse),
        }
    }
}

/// The attribute list that the writer puts on the `graphics` element.
pub open spec fn opt_attr_list(name: Seq<char>, value: Option<Seq<char>>) -> Seq<XmlAttrV> {
    match value {
        Some(v) => seq![XmlAttrV { name, value: v }],
        None => Seq::empty(),
    }
}

pub open spec fn port_attr_list(port: Option<int>) -> Seq<XmlAttrV> {
    match port {
        Some(p) => seq![XmlAttrV { name: "port"@, value: int_text(p) }],
        None => Seq::empty(),
    }
}

pub open spec fn graphics_attrs(x: DeviceGraphicsXmlV) -> Seq<XmlAttrV> {
    seq![XmlAttrV { name: "type"@, value: x.gtype }] + opt_attr_list("passwd"@, x.passwd)
        + opt_attr_list("rendernode"@, x.rendernode) + port_attr_list(x.port)
}

pub open spec fn gl_elem(g: GlAttrV) -> XmlElemV {
    XmlElemV { name: "gl"@, attrs: seq![XmlAttrV { name: "enable"@, value: g.enable }] }
}

pub open spec fn listen_elem(l: ListenAttrV) -> XmlElemV {
    XmlElemV {
        name: "listen"@,
        attrs: seq![XmlAttrV { name: "type"@, value: l.ltype }] + opt_attr_list(
            "address"@,
            l.address,
        ),
    }
}

/// The child list that the writer puts inside the `graphics` element.
pub open spec fn graphics_kids(x: DeviceGraphicsXmlV) -> Seq<XmlElemV> {
    (match x.gl {
        Some(g) => seq![gl_elem(g)],
        None => Seq::empty(),
    }) + (match x.listen {
        Some(l) => seq![listen_elem(l)],
        None => Seq::empty(),
    })
}

/// A fragment a real value can carry: the port fits in an `i32`.
pub open spec fn frag_wf(x: DeviceGraphicsXmlV) -> bool {
    match x.port {
        Some(p) => -0x8000_0000 <= p <= 0x7fff_ffff,
        None => true,
    }
}

proof fn lemma_type_name()
    ensures
        "type"@.len() == 4,
        forall|i: int| 0 <= i < "type"@.len() ==> is_name_char(#[trigger] "type"@[i]),
{
    reveal_strlit("type");
    assert forall|i: int| 0 <= i < "type"@.len() implies is_name_char(#[trigger] "type"@[i]) by {
        assert("type"@[0] == 't' && "type"@[1] == 'y' && "type"@[2] == 'p' && "type"@[3] == 'e');
        assert('t' as u32 == 116 && 'y' as u32 == 121 && 'p' as u32 == 112 && 'e' as u32 == 101);
    }
}

proof fn lemma_passwd_name()
    ensures
        "passwd"@.len() == 6,
        forall|i: int| 0 <= i < "passwd"@.len() ==> is_name_char(#[trigger] "passwd"@[i]),
{
    reveal_strlit("passwd");
    assert forall|i: int| 0 <= i < "passwd"@.len() implies is_name_char(
        #[trigger] "passwd"@[i],
    ) by {
        assert("passwd"@[0] == 'p' && "passwd"@[1] == 'a' && "passwd"@[2] == 's' && "passwd"@[3]
            == 's' && "passwd"@[4] == 'w' && "passwd"@[5] == 'd');
        assert('p' as u32 == 112 && 'a' as u32 == 97 && 's' as u32 == 115 && 'w' as u32 == 119
            && 'd' as u32 == 100);
    }
}

proof fn lemma_rendernode_name()
    ensures
        "rendernode"@.len() == 10,
        forall|i: int| 0 <= i < "rendernode"@.len() ==> is_name_char(#[trigger] "rendernode"@[i]),
{
    reveal_strlit("rendernode");
    assert forall|i: int| 0 <= i < "rendernode"@.len() implies is_name_char(
        #[trigger] "rendernode"@[i],
    ) by {
        assert("rendernode"@[0] == 'r' && "rendernode"@[1] == 'e' && "rendernode"@[2] == 'n'
            && "rendernode"@[3] == 'd' && "rendernode"@[4] == 'e' && "rendernode"@[5] == 'r'
            && "rendernode"@[6] == 'n' && "rendernode"@[7] == 'o' && "rendernode"@[8] == 'd'
            && "rendernode"@[9] == 'e');
        assert('r' as u32 == 114 && 'e' as u32 == 101 && 'n' as u32 == 110 && 'd' as u32 == 100
            && 'o' as u32 == 111);
    }
}

proof fn lemma_port_name()
    ensures
        "port"@.len() == 4,
        forall|i: int| 0 <= i < "port"@.len() ==> is_name_char(#[trigger] "port"@[i]),
{
    reveal_strlit("port");
    assert forall|i: int| 0 <= i < "port"@.len() implies is_name_char(#[trigger] "port"@[i]) by {
        assert("port"@[0] == 'p' && "port"@[1] == 'o' && "port"@[2] == 'r' && "port"@[3] == 't');
        assert('p' as u32 == 112 && 'o' as u32 == 111 && 'r' as u32 == 114 && 't' as u32 == 116);
    }
}

proof fn lemma_enable_name()
    ensures
        "enable"@.len() == 6,
        forall|i: int| 0 <= i < "enable"@.len() ==> is_name_char(#[trigger] "enable"@[i]),
{
    reveal_strlit("enable");
    assert forall|i: int| 0 <= i < "enable"@.len() implies is_name_char(
        #[trigger] "enable"@[i],
    ) by {
        assert("enable"@[0] == 'e' && "enable"@[1] == 'n' && "enable"@[2] == 'a' && "enable"@[3]
            == 'b' && "enable"@[4] == 'l' && "enable"@[5] == 'e');
        assert('e' as u32 == 101 && 'n' as u32 == 110 && 'a' as u32 == 97 && 'b' as u32 == 98
            && 'l' as u32 == 108);
    }
}

proof fn lemma_address_name()
    ensures
        "address"@.len() == 7,
        forall|i: int| 0 <= i < "address"@.len() ==> is_name_char(#[trigger] "address"@[i]),
{
    reveal_strlit("address");
    assert forall|i: int| 0 <= i < "address"@.len() implies is_name_char(
        #[trigger] "address"@[i],
    ) by {
        assert("address"@[0] == 'a' && "address"@[1] == 'd' && "address"@[2] == 'd' && "address"@[3]
            == 'r' && "address"@[4] == 'e' && "address"@[5] == 's' && "address"@[6] == 's');
        assert('a' as u32 == 97 && 'd' as u32 == 100 && 'r' as u32 == 114 && 'e' as u32 == 101
            && 's' as u32 == 115);
    }
}

proof fn lemma_graphics_name()
    ensures
        "graphics"@.len() == 8,
        forall|i: int| 0 <= i < "graphics"@.len() ==> is_name_char(#[trigger] "graphics"@[i]),
{
    reveal_strlit("graphics");
    assert forall|i: int| 0 <= i < "graphics"@.len() implies is_name_char(
        #[trigger] "graphics"@[i],
    ) by {
        assert("graphics"@[0] == 'g' && "graphics"@[1] == 'r' && "graphics"@[2] == 'a'
            && "graphics"@[3] == 'p' && "graphics"@[4] == 'h' && "graphics"@[5] == 'i'
            && "graphics"@[6] == 'c' && "graphics"@[7] == 's');
        assert('g' as u32 == 103 && 'r' as u32 == 114 && 'a' as u32 == 97 && 'p' as u32 == 112
            && 'h' as u32 == 104 && 'i' as u32 == 105 && 'c' as u32 == 99 && 's' as u32 == 115);
    }
}

/// An optional attribute parses to its zero- or one-element list.
proof fn lemma_parse_attrs_opt(name: Seq<char>, ov: Option<Seq<char>>, rest: Seq<char>)
    requires
        name.len() >= 1,
        forall|i: int| 0 <= i < name.len() ==> is_name_char(#[trigger] name[i]),
        parse_attrs(rest) is Some,
    ensures
        parse_attrs(opt_attr_text(name, ov) + rest) == Some(
            (opt_attr_list(name, ov) + (parse_attrs(rest)->0).0, (parse_attrs(rest)->0).1),
        ),
{
    match ov {
        Some(v) => {
            lemma_parse_attrs_attr(name, v, rest);
        },
        None => {
            assert(opt_attr_text(name, ov) + rest =~= rest);
            assert(opt_attr_list(name, ov) + (parse_attrs(rest)->0).0 =~= (parse_attrs(
                rest,
            )->0).0);
        },
    }
}

/// The `graphics` element's attribute text parses to its attribute list.
proof fn lemma_graphics_attrs_parse(x: DeviceGraphicsXmlV, tail: Seq<char>)
    requires
        tail.len() > 0,
        !is_ws(tail[0]),
    ensures
        parse_attrs(
            attr_text("type"@, x.gtype) + (opt_attr_text("passwd"@, x.passwd) + (opt_attr_text(
                "rendernode"@,
                x.rendernode,
            ) + (port_attr_text(x.port) + tail))),
        ) == Some((graphics_attrs(x), tail)),
{
    lemma_type_name();
    lemma_passwd_name();
    lemma_rendernode_name();
    lemma_port_name();
    lemma_parse_attrs_stop(tail);
    let c0 = port_attr_text(x.port) + tail;
    match x.port {
        Some(p) => {
            lemma_parse_attrs_attr("port"@, int_text(p), tail);
            assert(port_attr_text(x.port) + tail =~= attr_text("port"@, int_text(p)) + tail);
            assert((parse_attrs(c0)->0).0 =~= port_attr_list(x.port));
            assert((parse_attrs(c0)->0).1 == tail);
        },
        None => {
            assert(c0 =~= tail);
            assert((parse_attrs(c0)->0).0 =~= port_attr_list(x.port));
        },
    }
    let c1 = opt_attr_text("rendernode"@, x.rendernode) + c0;
    lemma_parse_attrs_opt("rendernode"@, x.rendernode, c0);
    assert((parse_attrs(c1)->0).0 =~= opt_attr_list("rendernode"@, x.rendernode) + port_attr_list(
        x.port,
    ));
    let c2 = opt_attr_text("passwd"@, x.passwd) + c1;
    lemma_parse_attrs_opt("passwd"@, x.passwd, c1);
    let c3 = attr_text("type"@, x.gtype) + c2;
    lemma_parse_attrs_attr("type"@, x.gtype, c2);
    assert(c3 =~= attr_text("type"@, x.gtype) + (opt_attr_text("passwd"@, x.passwd)
        + (opt_attr_text("rendernode"@, x.rendernode) + (port_attr_text(x.port) + tail))));
    assert((parse_attrs(c3)->0).0 =~= graphics_attrs(x));
    assert((parse_attrs(c3)->0).1 == tail);
}


proof fn lemma_lt_gt_chars()
    ensures
        !is_ws('<'),
        !is_ws('>'),
        !is_ws('/'),
        !is_name_char('<'),
        !is_name_char('>'),
        !is_name_char('/'),
        !is_name_char(' '),
        is_ws(' '),
        is_ws('\n'),
{
    assert('<' as u32 == 60);
    assert('>' as u32 == 62);
    assert('/' as u32 == 47);
    assert(' ' as u32 == 32);
}

/// One `<gl .../>` element parses to `gl_elem`.
proof fn lemma_gl_elem_parse(g: GlAttrV, rest: Seq<char>)
    requires
        rest.len() > 0,
        !is_ws(rest[0]),
    ensures
        parse_child(gl_text(Some(g)) + rest) == Some((gl_elem(g), rest)),
{
    reveal_strlit("<gl");
    reveal_strlit("gl");
    reveal_strlit("/>");
    lemma_lt_gt_chars();
    lemma_enable_name();
    let achunk = attr_text("enable"@, g.enable);
    let tailp = seq!['/', '>'] + rest;
    lemma_parse_attrs_stop(tailp);
    lemma_parse_attrs_attr("enable"@, g.enable, tailp);
    assert(achunk + tailp =~= achunk + (seq!['/', '>'] + rest));
    assert((parse_attrs(achunk + tailp)->0).0 =~= gl_elem(g).attrs);
    assert("gl"@.len() == 2);
    assert forall|i: int| 0 <= i < "gl"@.len() implies is_name_char(#[trigger] "gl"@[i]) by {
        assert("gl"@[0] == 'g' && "gl"@[1] == 'l');
        assert('g' as u32 == 103 && 'l' as u32 == 108);
    }
    assert(achunk[0] == ' ');
    lemma_parse_child_elem("gl"@, achunk, gl_elem(g).attrs, rest);
    assert(gl_text(Some(g)) + rest =~= seq!['<'] + "gl"@ + achunk + (seq!['/', '>'] + rest));
}

/// One `<listen .../>` element parses to `listen_elem`.
proof fn lemma_listen_elem_parse(l: ListenAttrV, rest: Seq<char>)
    requires
        rest.len() > 0,
        !is_ws(rest[0]),
    ensures
        parse_child(listen_text(Some(l)) + rest) == Some((listen_elem(l), rest)),
{
    reveal_strlit("<listen");
    reveal_strlit("listen");
    reveal_strlit("/>");
    lemma_lt_gt_chars();
    lemma_type_name();
    lemma_address_name();
    let achunk = attr_text("type"@, l.ltype) + opt_attr_text("address"@, l.address);
    let tailp = seq!['/', '>'] + rest;
    lemma_parse_attrs_stop(tailp);
    lemma_parse_attrs_opt("address"@, l.address, tailp);
    let c1 = opt_attr_text("address"@, l.address) + tailp;
    lemma_parse_attrs_attr("type"@, l.ltype, c1);
    assert(achunk + tailp =~= attr_text("type"@, l.ltype) + c1);
    assert((parse_attrs(achunk + tailp)->0).0 =~= listen_elem(l).attrs);
    assert((parse_attrs(achunk + tailp)->0).1 == tailp);
    assert("listen"@.len() == 6);
    assert forall|i: int| 0 <= i < "listen"@.len() implies is_name_char(
        #[trigger] "listen"@[i],
    ) by {
        assert("listen"@[0] == 'l' && "listen"@[1] == 'i' && "listen"@[2] == 's' && "listen"@[3]
            == 't' && "listen"@[4] == 'e' && "listen"@[5] == 'n');
        assert('l' as u32 == 108 && 'i' as u32 == 105 && 's' as u32 == 115 && 't' as u32 == 116
            && 'e' as u32 == 101 && 'n' as u32 == 110);
    }
    assert(achunk[0] == ' ');
    lemma_parse_child_elem("listen"@, achunk, listen_elem(l).attrs, rest);
    assert(listen_text(Some(l)) + rest =~= seq!['<'] + "listen"@ + achunk + (seq!['/', '>']
        + rest));
}

/// The children text parses to the child list.
proof fn lemma_graphics_kids_parse(x: DeviceGraphicsXmlV, rest: Seq<char>)
    requires
        rest.len() >= 2,
        rest[0] == '<',
        rest[1] == '/',
    ensures
        parse_children(gl_text(x.gl) + (listen_text(x.listen) + rest)) == Some(
            (graphics_kids(x), rest),
        ),
{
    reveal_strlit("<gl");
    reveal_strlit("<listen");
    lemma_lt_gt_chars();
    // the stop case: the close tag begins with "</"
    assert(skip_ws(rest) == rest);
    assert(parse_children(rest) == Some((Seq::<XmlElemV>::empty(), rest)));
    // the listen step
    let lrest = listen_text(x.listen) + rest;
    let lkids: Seq<XmlElemV> = match x.listen {
        Some(l) => seq![listen_elem(l)],
        None => Seq::empty(),
    };
    match x.listen {
        Some(l) => {
            lemma_listen_elem_parse(l, rest);
            assert(lrest[0] == '<');
            assert(lrest[1] == 'l');
            assert('l' as u32 == 108 && '/' as u32 == 47);
            assert(skip_ws(lrest) == lrest);
            assert(parse_children(lrest) == Some((seq![listen_elem(l)] + Seq::<XmlElemV>::empty(), rest)));
            assert(seq![listen_elem(l)] + Seq::<XmlElemV>::empty() =~= lkids);
        },
        None => {
            assert(lrest =~= rest);
        },
    }
    assert(parse_children(lrest) == Some((lkids, rest)));
    // the gl step
    let grest = gl_text(x.gl) + lrest;
    match x.gl {
        Some(g) => {
            // parse_child stops at the first character after the element,
            // which begins the listen element or the close tag
            assert(lrest.len() > 0);
            if x.listen is Some {
                assert(lrest[0] == '<');
            }
            assert(!is_ws(lrest[0]));
            lemma_gl_elem_parse(g, lrest);
            assert(grest[0] == '<');
            assert(grest[1] == 'g');
            assert('g' as u32 == 103 && '/' as u32 == 47);
            assert(skip_ws(grest) == grest);
            assert(parse_children(grest) == Some((seq![gl_elem(g)] + lkids, rest)));
            assert(seq![gl_elem(g)] + lkids =~= graphics_kids(x));
        },
        None => {
            assert(grest =~= lrest);
            assert(lkids =~= graphics_kids(x));
        },
    }
}

proof fn lemma_attr_of_single(a: XmlAttrV, n: Seq<char>)
    ensures
        attr_of(seq![a], n) == if a.name == n {
            Some(a.value)
        } else {
            None::<Seq<char>>
        },
{
    if a.name == n {
        assert(seq![a][0] == a);
    } else {
        assert(seq![a].drop_first() =~= Seq::<XmlAttrV>::empty());
        assert(attr_of(Seq::<XmlAttrV>::empty(), n) is None);
    }
}

proof fn lemma_attr_of_opt(name: Seq<char>, ov: Option<Seq<char>>, n: Seq<char>)
    ensures
        attr_of(opt_attr_list(name, ov), n) == (match ov {
            Some(v) => if name == n {
                Some(v)
            } else {
                None::<Seq<char>>
            },
            None => None::<Seq<char>>,
        }),
{
    match ov {
        Some(v) => {
            lemma_attr_of_single(XmlAttrV { name, value: v }, n);
        },
        None => {},
    }
}

/// Looking each name up in the written attribute list gives the field
/// back.
proof fn lemma_graphics_attr_of(x: DeviceGraphicsXmlV)
    ensures
        attr_of(graphics_attrs(x), "type"@) == Some(x.gtype),
        attr_of(graphics_attrs(x), "passwd"@) == x.passwd,
        attr_of(graphics_attrs(x), "rendernode"@) == x.rendernode,
        attr_of(graphics_attrs(x), "port"@) == (match x.port {
            Some(p) => Some(int_text(p)),
            None => None,
        }),
{
    lemma_type_name();
    lemma_passwd_name();
    lemma_rendernode_name();
    lemma_port_name();
    assert("type"@[0] == 't' && "port"@[0] == 'p') by {
        reveal_strlit("type");
        reveal_strlit("port");
    }
    assert("type"@ != "passwd"@ && "type"@ != "rendernode"@ && "type"@ != "port"@);
    assert("passwd"@ != "rendernode"@ && "passwd"@ != "port"@ && "rendernode"@ != "port"@);
    let a = seq![XmlAttrV { name: "type"@, value: x.gtype }];
    let b = opt_attr_list("passwd"@, x.passwd);
    let c = opt_attr_list("rendernode"@, x.rendernode);
    let d = port_attr_list(x.port);
    let names = seq!["type"@, "passwd"@, "rendernode"@, "port"@];
    assert forall|i: int| 0 <= i < 4 implies attr_of(graphics_attrs(x), #[trigger] names[i])
        == match attr_of(a, names[i]) {
        Some(v) => Some(v),
        None => match attr_of(b, names[i]) {
            Some(v) => Some(v),
            None => match attr_of(c, names[i]) {
                Some(v) => Some(v),
                None => attr_of(d, names[i]),
            },
        },
    } by {
        lemma_attr_of_concat(a + b + c, d, names[i]);
        lemma_attr_of_concat(a + b, c, names[i]);
        lemma_attr_of_concat(a, b, names[i]);
    }
    lemma_attr_of_single(XmlAttrV { name: "type"@, value: x.gtype }, "type"@);
    lemma_attr_of_single(XmlAttrV { name: "type"@, value: x.gtype }, "passwd"@);
    lemma_attr_of_single(XmlAttrV { name: "type"@, value: x.gtype }, "rendernode"@);
    lemma_attr_of_single(XmlAttrV { name: "type"@, value: x.gtype }, "port"@);
    lemma_attr_of_opt("passwd"@, x.passwd, "type"@);
    lemma_attr_of_opt("passwd"@, x.passwd, "passwd"@);
    lemma_attr_of_opt("passwd"@, x.passwd, "rendernode"@);
    lemma_attr_of_opt("passwd"@, x.passwd, "port"@);
    lemma_attr_of_opt("rendernode"@, x.rendernode, "type"@);
    lemma_attr_of_opt("rendernode"@, x.rendernode, "passwd"@);
    lemma_attr_of_opt("rendernode"@, x.rendernode, "rendernode"@);
    lemma_attr_of_opt("rendernode"@, x.rendernode, "port"@);
    match x.port {
        Some(p) => {
            lemma_attr_of_single(XmlAttrV { name: "port"@, value: int_text(p) }, "type"@);
            lemma_attr_of_single(XmlAttrV { name: "port"@, value: int_text(p) }, "passwd"@);
            lemma_attr_of_single(XmlAttrV { name: "port"@, value: int_text(p) }, "rendernode"@);
            lemma_attr_of_single(XmlAttrV { name: "port"@, value: int_text(p) }, "port"@);
        },
        None => {},
    }
}

proof fn lemma_child_of_single(e: XmlElemV, n: Seq<char>)
    ensures
        child_of(seq![e], n) == if e.name == n {
            Some(e)
        } else {
            None::<XmlElemV>
        },
{
    if e.name == n {
        assert(seq![e][0] == e);
    } else {
        assert(seq![e].drop_first() =~= Seq::<XmlElemV>::empty());
        assert(child_of(Seq::<XmlElemV>::empty(), n) is None);
    }
}

/// Interpreting the written attribute and child lists gives the fragment
/// back.
proof fn lemma_interpret_graphics(x: DeviceGraphicsXmlV)
    requires
        frag_wf(x),
    ensures
        interpret(graphics_attrs(x), graphics_kids(x)) == Some(x),
{
    reveal_strlit("type");
    reveal_strlit("passwd");
    reveal_strlit("rendernode");
    reveal_strlit("port");
    reveal_strlit("gl");
    reveal_strlit("listen");
    reveal_strlit("enable");
    reveal_strlit("address");
    lemma_type_name();
    lemma_passwd_name();
    lemma_rendernode_name();
    lemma_port_name();
    lemma_enable_name();
    lemma_address_name();
    assert("gl"@.len() == 2 && "listen"@.len() == 6);
    assert("type"@ != "passwd"@ && "type"@ != "rendernode"@);
    assert("type"@[0] == 't' && "port"@[0] == 'p');
    assert("type"@ != "port"@);
    assert("passwd"@ != "rendernode"@ && "passwd"@ != "port"@ && "rendernode"@ != "port"@);
    lemma_graphics_attr_of(x);
    // the port round trip
    match x.port {
        Some(p) => {
            lemma_parse_int_text(p);
            assert(port_field(graphics_attrs(x)) == Some(x.port));
        },
        None => {
            assert(port_field(graphics_attrs(x)) == Some(x.port));
        },
    }
    // the children
    let gk: Seq<XmlElemV> = match x.gl {
        Some(g) => seq![gl_elem(g)],
        None => Seq::empty(),
    };
    let lk: Seq<XmlElemV> = match x.listen {
        Some(l) => seq![listen_elem(l)],
        None => Seq::empty(),
    };
    assert("gl"@ != "listen"@);
    lemma_child_of_concat(gk, lk, "gl"@);
    lemma_child_of_concat(gk, lk, "listen"@);
    match x.gl {
        Some(g) => {
            lemma_child_of_single(gl_elem(g), "gl"@);
            lemma_child_of_single(gl_elem(g), "listen"@);
            lemma_attr_of_single(XmlAttrV { name: "enable"@, value: g.enable }, "enable"@);
            assert(gl_field(graphics_kids(x)) == Some(Some(GlAttrV { enable: g.enable })));
            assert(GlAttrV { enable: g.enable } == g);
        },
        None => {},
    }
    match x.listen {
        Some(l) => {
            lemma_child_of_single(listen_elem(l), "listen"@);
            lemma_child_of_single(listen_elem(l), "gl"@);
            let la = seq![XmlAttrV { name: "type"@, value: l.ltype }];
            lemma_attr_of_concat(la, opt_attr_list("address"@, l.address), "type"@);
            lemma_attr_of_concat(la, opt_attr_list("address"@, l.address), "address"@);
            lemma_attr_of_single(XmlAttrV { name: "type"@, value: l.ltype }, "type"@);
            lemma_attr_of_single(XmlAttrV { name: "type"@, value: l.ltype }, "address"@);
            lemma_attr_of_opt("address"@, l.address, "address"@);
            assert("type"@ != "address"@);
            assert(attr_of(listen_elem(l).attrs, "type"@) == Some(l.ltype));
            assert(attr_of(listen_elem(l).attrs, "address"@) == l.address);
            assert(listen_field(graphics_kids(x)) == Some(Some(ListenAttrV { ltype: l.ltype, address: l.address })));
            assert(ListenAttrV { ltype: l.ltype, address: l.address } == l);
        },
        None => {},
    }
    assert(gl_field(graphics_kids(x)) == Some(x.gl));
    assert(listen_field(graphics_kids(x)) == Some(x.listen));
    assert(interpret(graphics_attrs(x), graphics_kids(x))->0 == x);
}

/// The body text parses back to the written element.
#[verifier::rlimit(100)]
proof fn lemma_parse_root_frag(x: DeviceGraphicsXmlV)
    ensures
        parse_root(frag_body(x)) == Some(
            (
                XmlElemV { name: "graphics"@, attrs: graphics_attrs(x) },
                graphics_kids(x),
                seq!['\n'],
            ),
        ),
{
    reveal_strlit("<graphics");
    reveal_strlit("graphics");
    reveal_strlit("/>\n");
    reveal_strlit(">");
    reveal_strlit("</graphics>\n");
    lemma_graphics_name();
    lemma_lt_gt_chars();
    let at = attr_text("type"@, x.gtype);
    let op = opt_attr_text("passwd"@, x.passwd);
    let orr = opt_attr_text("rendernode"@, x.rendernode);
    let opo = port_attr_text(x.port);
    let tail: Seq<char> = match (x.gl, x.listen) {
        (Option::<GlAttrV>::None, Option::<ListenAttrV>::None) => "/>\n"@,
        (gl, listen) => ">"@ + gl_text(gl) + listen_text(listen) + "</graphics>\n"@,
    };
    let s = frag_body(x);
    let mid = at + (op + (orr + (opo + tail)));
    assert("<graphics"@ =~= seq!['<'] + "graphics"@);
    assert(s =~= seq!['<'] + ("graphics"@ + mid));
    assert(s[0] == '<');
    let t = s.drop_first();
    assert(t =~= "graphics"@ + mid);
    assert(at[0] == ' ');
    assert(mid[0] == ' ');
    lemma_name_len_concat("graphics"@, mid);
    assert(name_len(t) == 8);
    assert(t.take(8) =~= "graphics"@);
    assert(t.skip(8) =~= mid);
    if x.gl is None && x.listen is None {
        assert(tail[0] == '/');
    } else {
        assert(tail[0] == '>');
    }
    assert(!is_ws(tail[0]));
    lemma_graphics_attrs_parse(x, tail);
    assert(parse_attrs(t.skip(8)) == Some((graphics_attrs(x), tail)));
    assert(skip_ws(tail) == tail);
    if x.gl is None && x.listen is None {
        assert(tail.len() == 3);
        assert(tail[1] == '>');
        assert(tail.skip(2) =~= seq!['\n']);
        assert(graphics_kids(x) =~= Seq::<XmlElemV>::empty());
    } else {
        let close = "</graphics>\n"@;
        assert(tail[0] == '>' && tail[0] != '/');
        assert(tail.drop_first() =~= gl_text(x.gl) + (listen_text(x.listen) + close));
        assert(close.len() == 12 && close[0] == '<' && close[1] == '/');
        lemma_graphics_kids_parse(x, close);
        let u = close.skip(2);
        assert(u =~= "graphics"@ + seq!['>', '\n']);
        lemma_name_len_concat("graphics"@, seq!['>', '\n']);
        assert(name_len(u) == 8);
        assert(u.take(8) =~= "graphics"@);
        assert(u.skip(8) =~= seq!['>', '\n']);
        assert(u.skip(8)[0] == '>');
        assert(u.skip(8).drop_first() =~= seq!['\n']);
    }
}

/// Decoding inverts encoding: the canonical text of any well-formed
/// fragment reads back as that fragment.
pub proof fn lemma_decode_frag_text(x: DeviceGraphicsXmlV)
    requires
        frag_wf(x),
    ensures
        spec_decode(frag_text(x)) == Some(x),
{
    reveal_strlit("<?xml version=\"1.0\" encoding=\"UTF-8\"?>\n");
    reveal_strlit("<graphics");
    reveal_strlit("graphics");
    lemma_lt_gt_chars();
    let decl = "<?xml version=\"1.0\" encoding=\"UTF-8\"?>\n"@;
    let body = frag_body(x);
    let s = frag_text(x);
    assert(s == decl + body);
    assert(decl.len() == 39);
    assert(s[0] == '<' && s[1] == '?');
    assert(skip_ws(s) == s);
    let dbody = decl.subrange(2, 36);
    assert forall|i: int| 0 <= i < dbody.len() implies #[trigger] dbody[i] != '?' by {
        assert(dbody[i] == decl[i + 2]);
    }
    assert(s.skip(2) =~= dbody + (seq!['?', '>'] + (seq!['\n'] + body)));
    crate::xml::lemma_find_decl_end_concat(dbody, seq!['\n'] + body);
    assert(skip_decl(skip_ws(s)) == Some(seq!['\n'] + body));
    assert("<graphics"@.len() == 9);
    assert(body[0] == '<');
    lemma_skip_ws_concat(seq!['\n'], body);
    assert(skip_ws(seq!['\n'] + body) == body);
    lemma_parse_root_frag(x);
    lemma_skip_ws_concat(seq!['\n'], Seq::<char>::empty());
    assert(seq!['\n'] + Seq::<char>::empty() =~= seq!['\n']);
    assert(skip_ws(seq!['\n']).len() == 0);
    assert(parse_document(s) == Some(
        (XmlElemV { name: "graphics"@, attrs: graphics_attrs(x) }, graphics_kids(x)),
    ));
    lemma_interpret_graphics(x);
}

} // verus!
