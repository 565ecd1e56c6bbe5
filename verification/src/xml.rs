//! A small XML fragment grammar.
//!
//! The `<graphics>` fragment uses one root element carrying attributes and
//! self-closing child elements, nothing more, so the grammar here covers
//! exactly that: double-quoted, escaped attribute values, ASCII-letter
//! names, optional white space between tokens, and an optional leading
//! XML declaration.  The spec functions define the grammar; the exec
//! functions are proved to follow them.

use vstd::prelude::*;
use crate::text::{is_ws, is_name_char, is_ws_exec, is_name_char_exec, escape_text, unescape_text,
    escape, unescape, lemma_escape_no_quote, lemma_unescape_escape};

verus! {

/// One `name="value"` pair, value already unescaped.
pub struct XmlAttr {
    pub name: String,
    pub value: String,
}

pub struct XmlAttrV {
    pub name: Seq<char>,
    pub value: Seq<char>,
}

impl View for XmlAttr {
    type V = XmlAttrV;

    open spec fn view(&self) -> XmlAttrV {
        XmlAttrV { name: self.name@, value: self.value@ }
    }
}

pub open spec fn attrs_view(s: Seq<XmlAttr>) -> Seq<XmlAttrV> {
    s.map_values(|a: XmlAttr| a@)
}

/// A self-closing element: a name and its attributes.
pub struct XmlElem {
    pub name: String,
    pub attrs: Vec<XmlAttr>,
}

pub struct XmlElemV {
    pub name: Seq<char>,
    pub attrs: Seq<XmlAttrV>,
}

impl View for XmlElem {
    type V = XmlElemV;

    open spec fn view(&self) -> XmlElemV {
        XmlElemV { name: self.name@, attrs: attrs_view(self.attrs@) }
    }
}

/// Drops leading white space.
pub open spec fn skip_ws(s: Seq<char>) -> Seq<char>
    decreases s.len(),
{
    if s.len() > 0 && is_ws(s[0]) {
        skip_ws(s.drop_first())
    } else {
        s
    }
}

/// Length of the leading run of name characters.
pub open spec fn name_len(s: Seq<char>) -> int
    decreases s.len(),
{
    if s.len() > 0 && is_name_char(s[0]) {
        1 + name_len(s.drop_first())
    } else {
        0
    }
}

/// Position of the first double quote.
pub open spec fn quote_pos(s: Seq<char>) -> Option<int>
    decreases s.len(),
{
    if s.len() == 0 {
        None
    } else if s[0] == '"' {
        Some(0)
    } else {
        match quote_pos(s.drop_first()) {
            Some(p) => Some(1 + p),
            None => None,
        }
    }
}

pub proof fn lemma_skip_ws_len(s: Seq<char>)
    ensures
        skip_ws(s).len() <= s.len(),
    decreases s.len(),
{
    if s.len() > 0 && is_ws(s[0]) {
        lemma_skip_ws_len(s.drop_first());
    }
}

pub proof fn lemma_name_len_bounds(s: Seq<char>)
    ensures
        0 <= name_len(s) <= s.len(),
    decreases s.len(),
{
    if s.len() > 0 && is_name_char(s[0]) {
        lemma_name_len_bounds(s.drop_first());
    }
}

pub proof fn lemma_quote_pos_bounds(s: Seq<char>)
    requires
        quote_pos(s) is Some,
    ensures
        0 <= quote_pos(s)->0 < s.len(),
        s[quote_pos(s)->0] == '"',
        forall|i: int| 0 <= i < quote_pos(s)->0 ==> s[i] != '"',
    decreases s.len(),
{
    if s.len() == 0 {
    } else if s[0] == '"' {
    } else {
        lemma_quote_pos_bounds(s.drop_first());
        let p = quote_pos(s)->0;
        assert(s[p] == s.drop_first()[p - 1]);
        assert forall|i: int| 0 <= i < p implies s[i] != '"' by {
            if i > 0 {
                assert(s[i] == s.drop_first()[i - 1]);
            }
        }
    }
}

/// A list of `name="value"` attributes, each preceded by white space.
/// Stops, consuming nothing, where no further attribute starts.
pub open spec fn parse_attrs(s: Seq<char>) -> Option<(Seq<XmlAttrV>, Seq<char>)>
    decreases s.len(),
{
    if s.len() > 0 && is_ws(s[0]) {
        let t = skip_ws(s);
        if t.len() > 0 && is_name_char(t[0]) {
            let k = name_len(t);
            let name = t.take(k);
            let r1 = t.skip(k);
            if r1.len() >= 2 && r1[0] == '=' && r1[1] == '"' {
                match quote_pos(r1.skip(2)) {
                    Some(q) => {
                        let raw = r1.skip(2).take(q);
                        let r2 = r1.skip(2).skip(q + 1);
                        match unescape_text(raw) {
                            Some(v) => {
                                proof {
                                    lemma_skip_ws_len(s);
                                    lemma_name_len_bounds(t);
                                    lemma_quote_pos_bounds(r1.skip(2));
                                }
                                match parse_attrs(r2) {
                                    Some((rest, r3)) => Some(
                                        (seq![XmlAttrV { name, value: v }] + rest, r3),
                                    ),
                                    None => None,
                                }
                            },
                            None => None,
                        }
                    },
                    None => None,
                }
            } else {
                None
            }
        } else {
            Some((Seq::empty(), s))
        }
    } else {
        Some((Seq::empty(), s))
    }
}

pub proof fn lemma_parse_attrs_len(s: Seq<char>)
    requires
        parse_attrs(s) is Some,
    ensures
        (parse_attrs(s)->0).1.len() <= s.len(),
    decreases s.len(),
{
    if s.len() > 0 && is_ws(s[0]) {
        let t = skip_ws(s);
        if t.len() > 0 && is_name_char(t[0]) {
            let k = name_len(t);
            let r1 = t.skip(k);
            lemma_skip_ws_len(s);
            lemma_name_len_bounds(t);
            lemma_quote_pos_bounds(r1.skip(2));
            let q = quote_pos(r1.skip(2))->0;
            lemma_parse_attrs_len(r1.skip(2).skip(q + 1));
        }
    }
}

/// One self-closing element: `<name a="b" ... />`.
pub open spec fn parse_child(s: Seq<char>) -> Option<(XmlElemV, Seq<char>)> {
    if s.len() > 0 && s[0] == '<' {
        let t = s.drop_first();
        let k = name_len(t);
        if k > 0 {
            let name = t.take(k);
            match parse_attrs(t.skip(k)) {
                Some((attrs, r2)) => {
                    let r3 = skip_ws(r2);
                    if r3.len() >= 2 && r3[0] == '/' && r3[1] == '>' {
                        Some((XmlElemV { name, attrs }, r3.skip(2)))
                    } else {
                        None
                    }
                },
                None => None,
            }
        } else {
            None
        }
    } else {
        None
    }
}

pub proof fn lemma_parse_child_len(s: Seq<char>)
    requires
        parse_child(s) is Some,
    ensures
        (parse_child(s)->0).1.len() < s.len(),
{
    let t = s.drop_first();
    let k = name_len(t);
    lemma_name_len_bounds(t);
    lemma_parse_attrs_len(t.skip(k));
    let r2 = (parse_attrs(t.skip(k))->0).1;
    lemma_skip_ws_len(r2);
}

/// Zero or more self-closing elements separated by white space; consumes
/// the white space that follows the last one.
pub open spec fn parse_children(s: Seq<char>) -> Option<(Seq<XmlElemV>, Seq<char>)>
    decreases s.len(),
{
    let t = skip_ws(s);
    if t.len() >= 2 && t[0] == '<' && t[1] != '/' {
        match parse_child(t) {
            Some((e, r)) => {
                proof {
                    lemma_skip_ws_len(s);
                    lemma_parse_child_len(t);
                }
                match parse_children(r) {
                    Some((es, r2)) => Some((seq![e] + es, r2)),
                    None => None,
                }
            },
            None => None,
        }
    } else {
        Some((Seq::empty(), t))
    }
}

/// The root element: either self-closing, or an open tag, self-closing
/// children, and a matching close tag.
pub open spec fn parse_root(s: Seq<char>) -> Option<(XmlElemV, Seq<XmlElemV>, Seq<char>)> {
    if s.len() > 0 && s[0] == '<' {
        let t = s.drop_first();
        let k = name_len(t);
        if k > 0 {
            let name = t.take(k);
            match parse_attrs(t.skip(k)) {
                Some((attrs, r2)) => {
                    let r3 = skip_ws(r2);
                    if r3.len() >= 2 && r3[0] == '/' && r3[1] == '>' {
                        Some((XmlElemV { name, attrs }, Seq::empty(), r3.skip(2)))
                    } else if r3.len() >= 1 && r3[0] == '>' {
                        match parse_children(r3.drop_first()) {
                            Some((kids, r4)) => {
                                if r4.len() >= 2 && r4[0] == '<' && r4[1] == '/' {
                                    let u = r4.skip(2);
                                    let k2 = name_len(u);
                                    if u.take(k2) == name {
                                        let r5 = u.skip(k2);
                                        if r5.len() >= 1 && r5[0] == '>' {
                                            Some((XmlElemV { name, attrs }, kids, r5.drop_first()))
                                        } else {
                                            None
                                        }
                                    } else {
                                        None
                                    }
                                } else {
                                    None
                                }
                            },
                            None => None,
                        }
                    } else {
                        None
                    }
                },
                None => None,
            }
        } else {
            None
        }
    } else {
        None
    }
}

/// Drops a leading `<? ... ?>` declaration, if one is present.
pub open spec fn find_decl_end(s: Seq<char>) -> Option<Seq<char>>
    decreases s.len(),
{
    if s.len() >= 2 && s[0] == '?' && s[1] == '>' {
        Some(s.skip(2))
    } else if s.len() == 0 {
        None
    } else {
        find_decl_end(s.drop_first())
    }
}

pub open spec fn skip_decl(s: Seq<char>) -> Option<Seq<char>> {
    if s.len() >= 2 && s[0] == '<' && s[1] == '?' {
        find_decl_end(s.skip(2))
    } else {
        Some(s)
    }
}

/// A whole document: optional declaration, one root element, nothing but
/// white space around them.
pub open spec fn parse_document(s: Seq<char>) -> Option<(XmlElemV, Seq<XmlElemV>)> {
    match skip_decl(skip_ws(s)) {
        Some(t1) => match parse_root(skip_ws(t1)) {
            Some((root, kids, rest)) => if skip_ws(rest).len() == 0 {
                Some((root, kids))
            } else {
                None
            },
            None => None,
        },
        None => None,
    }
}

/// The value of the first attribute with the given name.
pub open spec fn attr_of(attrs: Seq<XmlAttrV>, name: Seq<char>) -> Option<Seq<char>>
    decreases attrs.len(),
{
    if attrs.len() == 0 {
        None
    } else if attrs[0].name == name {
        Some(attrs[0].value)
    } else {
        attr_of(attrs.drop_first(), name)
    }
}

/// The first child element with the given name.
pub open spec fn child_of(kids: Seq<XmlElemV>, name: Seq<char>) -> Option<XmlElemV>
    decreases kids.len(),
{
    if kids.len() == 0 {
        None
    } else if kids[0].name == name {
        Some(kids[0])
    } else {
        child_of(kids.drop_first(), name)
    }
}

/// The text of one attribute as the writer emits it.
pub open spec fn attr_text(name: Seq<char>, value: Seq<char>) -> Seq<char> {
    seq![' '] + name + seq!['=', '"'] + escape_text(value) + seq!['"']
}

pub open spec fn elems_view(s: Seq<XmlElem>) -> Seq<XmlElemV> {
    s.map_values(|e: XmlElem| e@)
}

proof fn lemma_attrs_view_insert0(s: Seq<XmlAttr>, a: XmlAttr)
    ensures
        attrs_view(s.insert(0, a)) =~= seq![a@] + attrs_view(s),
{
    let l = s.insert(0, a);
    assert forall|i: int| 0 <= i < l.len() implies attrs_view(l)[i] == (seq![a@] + attrs_view(
        s,
    ))[i] by {
        if i == 0 {
            assert(l[0] == a);
        } else {
            assert(l[i] == s[i - 1]);
        }
    }
}

proof fn lemma_elems_view_insert0(s: Seq<XmlElem>, e: XmlElem)
    ensures
        elems_view(s.insert(0, e)) =~= seq![e@] + elems_view(s),
{
    let l = s.insert(0, e);
    assert forall|i: int| 0 <= i < l.len() implies elems_view(l)[i] == (seq![e@] + elems_view(
        s,
    ))[i] by {
        if i == 0 {
            assert(l[0] == e);
        } else {
            assert(l[i] == s[i - 1]);
        }
    }
}

pub fn skip_ws_exec<'a>(s: &'a str) -> (r: &'a str)
    ensures
        r@ == skip_ws(s@),
    decreases s@.len(),
{
    let n = s.unicode_len();
    if n > 0 && is_ws_exec(s.get_char(0)) {
        let t = s.substring_char(1, n);
        proof {
            assert(t@ =~= s@.drop_first());
        }
        skip_ws_exec(t)
    } else {
        s
    }
}

fn name_len_exec(s: &str) -> (r: usize)
    ensures
        r as int == name_len(s@),
    decreases s@.len(),
{
    let n = s.unicode_len();
    if n > 0 && is_name_char_exec(s.get_char(0)) {
        let t = s.substring_char(1, n);
        proof {
            assert(t@ =~= s@.drop_first());
            lemma_name_len_bounds(s@.drop_first());
        }
        1 + name_len_exec(t)
    } else {
        0
    }
}

fn quote_pos_exec(s: &str) -> (r: Option<usize>)
    ensures
        match r {
            Some(p) => quote_pos(s@) == Some(p as int),
            None => quote_pos(s@) is None,
        },
    decreases s@.len(),
{
    let n = s.unicode_len();
    if n == 0 {
        None
    } else if s.get_char(0) == '"' {
        Some(0)
    } else {
        let t = s.substring_char(1, n);
        proof {
            assert(t@ =~= s@.drop_first());
        }
        match quote_pos_exec(t) {
            Some(p) => {
                proof {
                    lemma_quote_pos_bounds(t@);
                }
                Some(1 + p)
            },
            None => None,
        }
    }
}

pub fn parse_attrs_exec<'a>(s: &'a str) -> (r: Option<(Vec<XmlAttr>, &'a str)>)
    ensures
        match r {
            Some(p) => parse_attrs(s@) == Some((attrs_view(p.0@), p.1@)),
            None => parse_attrs(s@) is None,
        },
    decreases s@.len(),
{
    let n = s.unicode_len();
    if n > 0 && is_ws_exec(s.get_char(0)) {
        let t = skip_ws_exec(s);
        let tn = t.unicode_len();
        proof {
            lemma_skip_ws_len(s@.drop_first());
        }
        if tn > 0 && is_name_char_exec(t.get_char(0)) {
            let k = name_len_exec(t);
            proof {
                lemma_name_len_bounds(t@);
            }
            let name = t.substring_char(0, k);
            let r1 = t.substring_char(k, tn);
            proof {
                assert(name@ =~= t@.take(k as int));
                assert(r1@ =~= t@.skip(k as int));
            }
            let r1n = tn - k;
            if r1n >= 2 && r1.get_char(0) == '=' && r1.get_char(1) == '"' {
                let r1s = r1.substring_char(2, r1n);
                proof {
                    assert(r1s@ =~= t@.skip(k as int).skip(2));
                }
                match quote_pos_exec(r1s) {
                    Some(q) => {
                        proof {
                            lemma_quote_pos_bounds(r1s@);
                        }
                        let raw = r1s.substring_char(0, q);
                        let r2 = r1s.substring_char(q + 1, r1n - 2);
                        proof {
                            assert(raw@ =~= r1s@.take(q as int));
                            assert(r2@ =~= r1s@.skip(q as int + 1));
                        }
                        match unescape(raw) {
                            Some(v) => {
                                match parse_attrs_exec(r2) {
                                    Some(p) => {
                                        let (mut rest, r3) = p;
                                        let a = XmlAttr { name: String::from_str(name), value: v };
                                        proof {
                                            lemma_attrs_view_insert0(rest@, a);
                                        }
                                        rest.insert(0, a);
                                        Some((rest, r3))
                                    },
                                    None => None,
                                }
                            },
                            None => None,
                        }
                    },
                    None => None,
                }
            } else {
                None
            }
        } else {
            proof {
                assert(attrs_view(Seq::<XmlAttr>::empty()) =~= Seq::<XmlAttrV>::empty());
            }
            Some((Vec::new(), s))
        }
    } else {
        proof {
            assert(attrs_view(Seq::<XmlAttr>::empty()) =~= Seq::<XmlAttrV>::empty());
        }
        Some((Vec::new(), s))
    }
}

pub fn parse_child_exec<'a>(s: &'a str) -> (r: Option<(XmlElem, &'a str)>)
    ensures
        match r {
            Some(p) => parse_child(s@) == Some((p.0@, p.1@)),
            None => parse_child(s@) is None,
        },
{
    let n = s.unicode_len();
    if n > 0 && s.get_char(0) == '<' {
        let t = s.substring_char(1, n);
        proof {
            assert(t@ =~= s@.drop_first());
        }
        let k = name_len_exec(t);
        if k > 0 {
            proof {
                lemma_name_len_bounds(t@);
            }
            let name = String::from_str(t.substring_char(0, k));
            let tn = t.unicode_len();
            let rest = t.substring_char(k, tn);
            proof {
                assert(name@ =~= t@.take(k as int));
                assert(rest@ =~= t@.skip(k as int));
            }
            match parse_attrs_exec(rest) {
                Some(p) => {
                    let (attrs, r2) = p;
                    let r3 = skip_ws_exec(r2);
                    let r3n = r3.unicode_len();
                    if r3n >= 2 && r3.get_char(0) == '/' && r3.get_char(1) == '>' {
                        let out = r3.substring_char(2, r3n);
                        proof {
                            assert(out@ =~= skip_ws(r2@).skip(2));
                        }
                        Some((XmlElem { name, attrs }, out))
                    } else {
                        None
                    }
                },
                None => None,
            }
        } else {
            None
        }
    } else {
        None
    }
}

pub fn parse_children_exec<'a>(s: &'a str) -> (r: Option<(Vec<XmlElem>, &'a str)>)
    ensures
        match r {
            Some(p) => parse_children(s@) == Some((elems_view(p.0@), p.1@)),
            None => parse_children(s@) is None,
        },
    decreases s@.len(),
{
    let t = skip_ws_exec(s);
    let tn = t.unicode_len();
    if tn >= 2 && t.get_char(0) == '<' && t.get_char(1) != '/' {
        match parse_child_exec(t) {
            Some(p0) => {
                let (e, r) = p0;
                proof {
                    lemma_skip_ws_len(s@);
                    lemma_parse_child_len(t@);
                }
                match parse_children_exec(r) {
                    Some(p1) => {
                        let (mut es, r2) = p1;
                        proof {
                            lemma_elems_view_insert0(es@, e);
                        }
                        es.insert(0, e);
                        Some((es, r2))
                    },
                    None => None,
                }
            },
            None => None,
        }
    } else {
        proof {
            assert(elems_view(Seq::<XmlElem>::empty()) =~= Seq::<XmlElemV>::empty());
        }
        Some((Vec::new(), t))
    }
}

pub fn parse_root_exec<'a>(s: &'a str) -> (r: Option<(XmlElem, Vec<XmlElem>, &'a str)>)
    ensures
        match r {
            Some(p) => parse_root(s@) == Some((p.0@, elems_view(p.1@), p.2@)),
            None => parse_root(s@) is None,
        },
{
    let n = s.unicode_len();
    if n > 0 && s.get_char(0) == '<' {
        let t = s.substring_char(1, n);
        proof {
            assert(t@ =~= s@.drop_first());
        }
        let k = name_len_exec(t);
        if k > 0 {
            proof {
                lemma_name_len_bounds(t@);
            }
            let name = String::from_str(t.substring_char(0, k));
            let tn = t.unicode_len();
            let rest = t.substring_char(k, tn);
            proof {
                assert(name@ =~= t@.take(k as int));
                assert(rest@ =~= t@.skip(k as int));
            }
            match parse_attrs_exec(rest) {
                Some(p) => {
                    let (attrs, r2) = p;
                    let r3 = skip_ws_exec(r2);
                    let r3n = r3.unicode_len();
                    if r3n >= 2 && r3.get_char(0) == '/' && r3.get_char(1) == '>' {
                        let out = r3.substring_char(2, r3n);
                        proof {
                            assert(out@ =~= skip_ws(r2@).skip(2));
                            assert(elems_view(Seq::<XmlElem>::empty())
                                =~= Seq::<XmlElemV>::empty());
                        }
                        Some((XmlElem { name, attrs }, Vec::new(), out))
                    } else if r3n >= 1 && r3.get_char(0) == '>' {
                        let body = r3.substring_char(1, r3n);
                        proof {
                            assert(body@ =~= skip_ws(r2@).drop_first());
                        }
                        match parse_children_exec(body) {
                            Some(p1) => {
                                let (kids, r4) = p1;
                                let r4n = r4.unicode_len();
                                if r4n >= 2 && r4.get_char(0) == '<' && r4.get_char(1) == '/' {
                                    let u = r4.substring_char(2, r4n);
                                    proof {
                                        assert(u@ =~= r4@.skip(2));
                                    }
                                    let k2 = name_len_exec(u);
                                    proof {
                                        lemma_name_len_bounds(u@);
                                    }
                                    let name2 = String::from_str(u.substring_char(0, k2));
                                    proof {
                                        assert(name2@ =~= u@.take(k2 as int));
                                    }
                                    if name2 == name {
                                        let un = u.unicode_len();
                                        let r5 = u.substring_char(k2, un);
                                        proof {
                                            assert(r5@ =~= u@.skip(k2 as int));
                                        }
                                        let r5n = r5.unicode_len();
                                        if r5n >= 1 && r5.get_char(0) == '>' {
                                            let out = r5.substring_char(1, r5n);
                                            proof {
                                                assert(out@ =~= r5@.drop_first());
                                            }
                                            Some((XmlElem { name, attrs }, kids, out))
                                        } else {
                                            None
                                        }
                                    } else {
                                        None
                                    }
                                } else {
                                    None
                                }
                            },
                            None => None,
                        }
                    } else {
                        None
                    }
                },
                None => None,
            }
        } else {
            None
        }
    } else {
        None
    }
}

fn find_decl_end_exec<'a>(s: &'a str) -> (r: Option<&'a str>)
    ensures
        match r {
            Some(t) => find_decl_end(s@) == Some(t@),
            None => find_decl_end(s@) is None,
        },
    decreases s@.len(),
{
    let n = s.unicode_len();
    if n >= 2 && s.get_char(0) == '?' && s.get_char(1) == '>' {
        let t = s.substring_char(2, n);
        proof {
            assert(t@ =~= s@.skip(2));
        }
        Some(t)
    } else if n == 0 {
        None
    } else {
        let t = s.substring_char(1, n);
        proof {
            assert(t@ =~= s@.drop_first());
        }
        find_decl_end_exec(t)
    }
}

fn skip_decl_exec<'a>(s: &'a str) -> (r: Option<&'a str>)
    ensures
        match r {
            Some(t) => skip_decl(s@) == Some(t@),
            None => skip_decl(s@) is None,
        },
{
    let n = s.unicode_len();
    if n >= 2 && s.get_char(0) == '<' && s.get_char(1) == '?' {
        let t = s.substring_char(2, n);
        proof {
            assert(t@ =~= s@.skip(2));
        }
        find_decl_end_exec(t)
    } else {
        Some(s)
    }
}

/// Reads a whole document.
pub fn parse_document_exec(s: &str) -> (r: Option<(XmlElem, Vec<XmlElem>)>)
    ensures
        match r {
            Some(p) => parse_document(s@) == Some((p.0@, elems_view(p.1@))),
            None => parse_document(s@) is None,
        },
{
    let t0 = skip_ws_exec(s);
    match skip_decl_exec(t0) {
        Some(t1) => {
            let t2 = skip_ws_exec(t1);
            match parse_root_exec(t2) {
                Some(p) => {
                    let (root, kids, rest) = p;
                    let tail = skip_ws_exec(rest);
                    if tail.unicode_len() == 0 {
                        Some((root, kids))
                    } else {
                        None
                    }
                },
                None => None,
            }
        },
        None => None,
    }
}

fn find_attr_from(attrs: &Vec<XmlAttr>, i: usize, name: &String) -> (r: Option<String>)
    requires
        i <= attrs@.len(),
    ensures
        match r {
            Some(v) => attr_of(attrs_view(attrs@.skip(i as int)), name@) == Some(v@),
            None => attr_of(attrs_view(attrs@.skip(i as int)), name@) is None,
        },
    decreases attrs@.len() - i,
{
    if i == attrs.len() {
        proof {
            assert(attrs_view(attrs@.skip(i as int)) =~= Seq::<XmlAttrV>::empty());
        }
        None
    } else {
        proof {
            assert(attrs_view(attrs@.skip(i as int))[0] == attrs@[i as int]@);
            assert(attrs_view(attrs@.skip(i as int)).drop_first() =~= attrs_view(
                attrs@.skip(i as int + 1),
            ));
        }
        let a = &attrs[i];
        if a.name == *name {
            Some(a.value.clone())
        } else {
            find_attr_from(attrs, i + 1, name)
        }
    }
}

/// The value of the first attribute with the given name.
pub fn find_attr(attrs: &Vec<XmlAttr>, name: &String) -> (r: Option<String>)
    ensures
        match r {
            Some(v) => attr_of(attrs_view(attrs@), name@) == Some(v@),
            None => attr_of(attrs_view(attrs@), name@) is None,
        },
{
    proof {
        assert(attrs@.skip(0) =~= attrs@);
    }
    find_attr_from(attrs, 0, name)
}

fn find_child_from(kids: &Vec<XmlElem>, i: usize, name: &String) -> (r: Option<usize>)
    requires
        i <= kids@.len(),
    ensures
        match r {
            Some(j) => i <= j < kids@.len() && child_of(elems_view(kids@.skip(i as int)), name@)
                == Some(kids@[j as int]@),
            None => child_of(elems_view(kids@.skip(i as int)), name@) is None,
        },
    decreases kids@.len() - i,
{
    if i == kids.len() {
        proof {
            assert(elems_view(kids@.skip(i as int)) =~= Seq::<XmlElemV>::empty());
        }
        None
    } else {
        proof {
            assert(elems_view(kids@.skip(i as int))[0] == kids@[i as int]@);
            assert(elems_view(kids@.skip(i as int)).drop_first() =~= elems_view(
                kids@.skip(i as int + 1),
            ));
        }
        let e = &kids[i];
        if e.name == *name {
            Some(i)
        } else {
            find_child_from(kids, i + 1, name)
        }
    }
}

/// The index of the first child element with the given name.
pub fn find_child(kids: &Vec<XmlElem>, name: &String) -> (r: Option<usize>)
    ensures
        match r {
            Some(j) => j < kids@.len() && child_of(elems_view(kids@), name@) == Some(
                kids@[j as int]@,
            ),
            None => child_of(elems_view(kids@), name@) is None,
        },
{
    proof {
        assert(kids@.skip(0) =~= kids@);
    }
    find_child_from(kids, 0, name)
}

/// Appends one ` name="value"` attribute, escaping the value.
pub fn append_attr(out: &mut String, name: &str, value: &str)
    ensures
        final(out)@ == old(out)@ + attr_text(name@, value@),
{
    out.append(" ");
    out.append(name);
    out.append("=\"");
    let e = escape(value);
    out.append(e.as_str());
    out.append("\"");
    proof {
        reveal_strlit(" ");
        reveal_strlit("=\"");
        reveal_strlit("\"");
        assert(out@ =~= old(out)@ + attr_text(name@, value@));
    }
}


/// Letters are none of the grammar's delimiters.
pub proof fn lemma_name_char_props(c: char)
    ensures
        is_name_char(c) ==> !is_ws(c) && c != '=' && c != '"' && c != '<' && c != '>' && c != '/'
            && c != '?' && c != '&',
{
    assert(' ' as u32 == 32);
    assert('\t' as u32 == 9);
    assert('\n' as u32 == 10);
    assert('\r' as u32 == 13);
    assert('=' as u32 == 61);
    assert('"' as u32 == 34);
    assert('<' as u32 == 60);
    assert('>' as u32 == 62);
    assert('/' as u32 == 47);
    assert('?' as u32 == 63);
    assert('&' as u32 == 38);
}

/// White space before a non-space suffix is skipped whole.
pub proof fn lemma_skip_ws_concat(w: Seq<char>, rest: Seq<char>)
    requires
        forall|i: int| 0 <= i < w.len() ==> is_ws(#[trigger] w[i]),
        rest.len() > 0 ==> !is_ws(rest[0]),
    ensures
        skip_ws(w + rest) == rest,
    decreases w.len(),
{
    if w.len() == 0 {
        assert(w + rest =~= rest);
    } else {
        assert((w + rest)[0] == w[0]);
        assert((w + rest).drop_first() =~= w.drop_first() + rest);
        lemma_skip_ws_concat(w.drop_first(), rest);
    }
}

/// A run of name characters before a delimiter is one whole name.
pub proof fn lemma_name_len_concat(a: Seq<char>, b: Seq<char>)
    requires
        forall|i: int| 0 <= i < a.len() ==> is_name_char(#[trigger] a[i]),
        b.len() > 0 ==> !is_name_char(b[0]),
    ensures
        name_len(a + b) == a.len(),
    decreases a.len(),
{
    if a.len() == 0 {
        assert(a + b =~= b);
    } else {
        lemma_name_char_props(a[0]);
        assert((a + b)[0] == a[0]);
        assert((a + b).drop_first() =~= a.drop_first() + b);
        lemma_name_len_concat(a.drop_first(), b);
    }
}

/// The first quote after a quote-free prefix closes the value.
pub proof fn lemma_quote_pos_concat(u: Seq<char>, rest: Seq<char>)
    requires
        forall|i: int| 0 <= i < u.len() ==> #[trigger] u[i] != '"',
    ensures
        quote_pos(u + (seq!['"'] + rest)) == Some(u.len() as int),
    decreases u.len(),
{
    let s = u + (seq!['"'] + rest);
    if u.len() == 0 {
        assert(s[0] == '"');
    } else {
        assert(s[0] == u[0]);
        assert(s.drop_first() =~= u.drop_first() + (seq!['"'] + rest));
        lemma_quote_pos_concat(u.drop_first(), rest);
    }
}

/// One attribute, then the rest of the list.
pub proof fn lemma_parse_attrs_attr(name: Seq<char>, v: Seq<char>, rest: Seq<char>)
    requires
        name.len() >= 1,
        forall|i: int| 0 <= i < name.len() ==> is_name_char(#[trigger] name[i]),
        parse_attrs(rest) is Some,
    ensures
        parse_attrs(attr_text(name, v) + rest) == Some(
            (
                seq![XmlAttrV { name, value: v }] + (parse_attrs(rest)->0).0,
                (parse_attrs(rest)->0).1,
            ),
        ),
{
    let s = attr_text(name, v) + rest;
    let tail = name + (seq!['=', '"'] + (escape_text(v) + (seq!['"'] + rest)));
    assert(s[0] == ' ');
    assert(s.drop_first() =~= tail);
    lemma_name_char_props(name[0]);
    assert(tail[0] == name[0]);
    assert(skip_ws(tail) == tail);
    assert(skip_ws(s) == tail);
    let nb = seq!['=', '"'] + (escape_text(v) + (seq!['"'] + rest));
    assert('=' as u32 == 61);
    assert(!is_name_char('='));
    lemma_name_len_concat(name, nb);
    assert(name_len(tail) == name.len());
    assert(tail.take(name.len() as int) =~= name);
    assert(tail.skip(name.len() as int) =~= nb);
    assert(nb[0] == '=');
    assert(nb[1] == '"');
    let r1s = escape_text(v) + (seq!['"'] + rest);
    assert(nb.skip(2) =~= r1s);
    lemma_escape_no_quote(v);
    lemma_quote_pos_concat(escape_text(v), rest);
    assert(quote_pos(r1s) == Some(escape_text(v).len() as int));
    let q = escape_text(v).len() as int;
    assert(r1s.take(q) =~= escape_text(v));
    assert(r1s.skip(q + 1) =~= rest);
    lemma_unescape_escape(v);
}

/// A list stops, consuming nothing, where no white space follows.
pub proof fn lemma_parse_attrs_stop(s: Seq<char>)
    requires
        s.len() == 0 || !is_ws(s[0]),
    ensures
        parse_attrs(s) == Some((Seq::<XmlAttrV>::empty(), s)),
{
}

/// Lookup distributes over list concatenation.
pub proof fn lemma_attr_of_concat(a: Seq<XmlAttrV>, b: Seq<XmlAttrV>, n: Seq<char>)
    ensures
        attr_of(a + b, n) == match attr_of(a, n) {
            Some(v) => Some(v),
            None => attr_of(b, n),
        },
    decreases a.len(),
{
    if a.len() == 0 {
        assert(a + b =~= b);
    } else {
        assert((a + b)[0] == a[0]);
        assert((a + b).drop_first() =~= a.drop_first() + b);
        lemma_attr_of_concat(a.drop_first(), b, n);
    }
}

pub proof fn lemma_child_of_concat(a: Seq<XmlElemV>, b: Seq<XmlElemV>, n: Seq<char>)
    ensures
        child_of(a + b, n) == match child_of(a, n) {
            Some(e) => Some(e),
            None => child_of(b, n),
        },
    decreases a.len(),
{
    if a.len() == 0 {
        assert(a + b =~= b);
    } else {
        assert((a + b)[0] == a[0]);
        assert((a + b).drop_first() =~= a.drop_first() + b);
        lemma_child_of_concat(a.drop_first(), b, n);
    }
}

/// One self-closing element with a known attribute list.
pub proof fn lemma_parse_child_elem(name: Seq<char>, achunk: Seq<char>, attrs: Seq<XmlAttrV>, rest: Seq<char>)
    requires
        name.len() >= 1,
        forall|i: int| 0 <= i < name.len() ==> is_name_char(#[trigger] name[i]),
        achunk.len() > 0 ==> !is_name_char(achunk[0]),
        parse_attrs(achunk + (seq!['/', '>'] + rest)) == Some(
            (attrs, seq!['/', '>'] + rest),
        ),
    ensures
        parse_child(seq!['<'] + name + achunk + (seq!['/', '>'] + rest)) == Some(
            (XmlElemV { name, attrs }, rest),
        ),
{
    let s = seq!['<'] + name + achunk + (seq!['/', '>'] + rest);
    assert(s[0] == '<');
    let t = name + (achunk + (seq!['/', '>'] + rest));
    assert(s.drop_first() =~= t);
    let nb = achunk + (seq!['/', '>'] + rest);
    assert(t =~= name + nb);
    assert('/' as u32 == 47);
    assert(nb.len() > 0);
    if achunk.len() > 0 {
        assert(nb[0] == achunk[0]);
    } else {
        assert(nb =~= seq!['/', '>'] + rest);
        assert(nb[0] == '/');
        assert(!is_name_char('/'));
    }
    lemma_name_len_concat(name, nb);
    assert(name_len(t) == name.len());
    assert(t.take(name.len() as int) =~= name);
    assert(t.skip(name.len() as int) =~= achunk + (seq!['/', '>'] + rest));
    let r2 = seq!['/', '>'] + rest;
    lemma_name_char_props('/');
    assert(!is_ws(r2[0]));
    assert(skip_ws(r2) == r2);
    assert(r2[0] == '/');
    assert(r2[1] == '>');
    assert(r2.skip(2) =~= rest);
}


/// A declaration free of `?` ends at the first `?>`.
pub proof fn lemma_find_decl_end_concat(body: Seq<char>, rest: Seq<char>)
    requires
        forall|i: int| 0 <= i < body.len() ==> #[trigger] body[i] != '?',
    ensures
        find_decl_end(body + (seq!['?', '>'] + rest)) == Some(rest),
    decreases body.len(),
{
    let s = body + (seq!['?', '>'] + rest);
    if body.len() == 0 {
        assert(s =~= seq!['?', '>'] + rest);
        assert(s[0] == '?' && s[1] == '>');
        assert(s.skip(2) =~= rest);
    } else {
        assert(s[0] == body[0]);
        assert(s.drop_first() =~= body.drop_first() + (seq!['?', '>'] + rest));
        lemma_find_decl_end_concat(body.drop_first(), rest);
    }
}

} // verus!
