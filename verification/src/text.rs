//! Character classes and XML attribute-value escaping.
//!
//! Attribute values are written with the five standard XML entities, so a
//! value may hold any character and still yield a well-formed fragment.
//! `unescape_text` is the exact inverse of `escape_text` on every input
//! (`lemma_unescape_escape`).

use vstd::prelude::*;

verus! {

/// The white-space characters the fragment grammar recognises.
pub open spec fn is_ws(c: char) -> bool {
    c == ' ' || c == '\t' || c == '\n' || c == '\r'
}

/// Characters allowed in an attribute or element name: ASCII letters.
pub open spec fn is_name_char(c: char) -> bool {
    (97 <= c as u32 && c as u32 <= 122) || (65 <= c as u32 && c as u32 <= 90)
}

pub fn is_ws_exec(c: char) -> (r: bool)
    ensures
        r == is_ws(c),
{
    c == ' ' || c == '\t' || c == '\n' || c == '\r'
}

pub fn is_name_char_exec(c: char) -> (r: bool)
    ensures
        r == is_name_char(c),
{
    let u = c as u32;
    (97 <= u && u <= 122) || (65 <= u && u <= 90)
}

/// How one character is written inside a double-quoted attribute value.
pub open spec fn escape_char(c: char) -> Seq<char> {
    if c == '&' {
        seq!['&', 'a', 'm', 'p', ';']
    } else if c == '<' {
        seq!['&', 'l', 't', ';']
    } else if c == '>' {
        seq!['&', 'g', 't', ';']
    } else if c == '"' {
        seq!['&', 'q', 'u', 'o', 't', ';']
    } else if c == '\'' {
        seq!['&', 'a', 'p', 'o', 's', ';']
    } else {
        seq![c]
    }
}

/// The escaped form of a whole attribute value.
pub open spec fn escape_text(s: Seq<char>) -> Seq<char>
    decreases s.len(),
{
    if s.len() == 0 {
        Seq::empty()
    } else {
        escape_char(s[0]) + escape_text(s.drop_first())
    }
}

/// Reads an escaped attribute value back.  `None` when an `&` does not
/// start one of the five entities.
pub open spec fn unescape_text(s: Seq<char>) -> Option<Seq<char>>
    decreases s.len(),
{
    if s.len() == 0 {
        Some(Seq::empty())
    } else if s[0] == '&' {
        if s.len() >= 5 && s[1] == 'a' && s[2] == 'm' && s[3] == 'p' && s[4] == ';' {
            match unescape_text(s.skip(5)) {
                Some(t) => Some(seq!['&'] + t),
                None => None,
            }
        } else if s.len() >= 4 && s[1] == 'l' && s[2] == 't' && s[3] == ';' {
            match unescape_text(s.skip(4)) {
                Some(t) => Some(seq!['<'] + t),
                None => None,
            }
        } else if s.len() >= 4 && s[1] == 'g' && s[2] == 't' && s[3] == ';' {
            match unescape_text(s.skip(4)) {
                Some(t) => Some(seq!['>'] + t),
                None => None,
            }
        } else if s.len() >= 6 && s[1] == 'q' && s[2] == 'u' && s[3] == 'o' && s[4] == 't' && s[5]
            == ';' {
            match unescape_text(s.skip(6)) {
                Some(t) => Some(seq!['"'] + t),
                None => None,
            }
        } else if s.len() >= 6 && s[1] == 'a' && s[2] == 'p' && s[3] == 'o' && s[4] == 's' && s[5]
            == ';' {
            match unescape_text(s.skip(6)) {
                Some(t) => Some(seq!['\''] + t),
                None => None,
            }
        } else {
            None
        }
    } else {
        match unescape_text(s.drop_first()) {
            Some(t) => Some(seq![s[0]] + t),
            None => None,
        }
    }
}

/// An escaped value never contains a double quote or an angle bracket,
/// so it can sit between the quotes of an attribute.
pub proof fn lemma_escape_no_quote(s: Seq<char>)
    ensures
        forall|i: int|
            0 <= i < escape_text(s).len() ==> escape_text(s)[i] != '"' && escape_text(s)[i] != '<'
                && escape_text(s)[i] != '>',
    decreases s.len(),
{
    if s.len() == 0 {
    } else {
        lemma_escape_no_quote(s.drop_first());
        let h = escape_char(s[0]);
        let t = escape_text(s.drop_first());
        assert(escape_text(s) == h + t);
        assert forall|i: int| 0 <= i < escape_text(s).len() implies escape_text(s)[i] != '"'
            && escape_text(s)[i] != '<' && escape_text(s)[i] != '>' by {
            if i < h.len() {
                assert(escape_text(s)[i] == h[i]);
            } else {
                assert(escape_text(s)[i] == t[i - h.len()]);
            }
        }
    }
}

/// Unescaping inverts escaping on every value.
pub proof fn lemma_unescape_escape(s: Seq<char>)
    ensures
        unescape_text(escape_text(s)) == Some(s),
    decreases s.len(),
{
    if s.len() == 0 {
        assert(escape_text(s) == Seq::<char>::empty());
        assert(s =~= Seq::<char>::empty());
    } else {
        lemma_unescape_escape(s.drop_first());
        let c = s[0];
        let h = escape_char(c);
        let t = escape_text(s.drop_first());
        let e = escape_text(s);
        assert(e == h + t);
        assert(seq![c] + s.drop_first() =~= s);
        if c == '&' {
            assert(e.skip(5) =~= t);
        } else if c == '<' {
            assert(e.skip(4) =~= t);
        } else if c == '>' {
            assert(e.skip(4) =~= t);
        } else if c == '"' {
            assert(e.skip(6) =~= t);
        } else if c == '\'' {
            assert(e.skip(6) =~= t);
        } else {
            assert(e.drop_first() =~= t);
        }
    }
}

/// Writes a value in its escaped form.
pub fn escape(s: &str) -> (r: String)
    ensures
        r@ == escape_text(s@),
    decreases s@.len(),
{
    let n = s.unicode_len();
    if n == 0 {
        String::new()
    } else {
        let c = s.get_char(0);
        let rest = escape(s.substring_char(1, n));
        let mut out: String;
        if c == '&' {
            out = String::from_str("&amp;");
            proof {
                reveal_strlit("&amp;");
                assert(out@ =~= escape_char(c));
            }
        } else if c == '<' {
            out = String::from_str("&lt;");
            proof {
                reveal_strlit("&lt;");
                assert(out@ =~= escape_char(c));
            }
        } else if c == '>' {
            out = String::from_str("&gt;");
            proof {
                reveal_strlit("&gt;");
                assert(out@ =~= escape_char(c));
            }
        } else if c == '"' {
            out = String::from_str("&quot;");
            proof {
                reveal_strlit("&quot;");
                assert(out@ =~= escape_char(c));
            }
        } else if c == '\'' {
            out = String::from_str("&apos;");
            proof {
                reveal_strlit("&apos;");
                assert(out@ =~= escape_char(c));
            }
        } else {
            out = String::from_str(s.substring_char(0, 1));
            proof {
                assert(out@ =~= escape_char(c));
            }
        }
        out.append(rest.as_str());
        proof {
            assert(s@.subrange(1, n as int) =~= s@.drop_first());
        }
        out
    }
}

/// Reads an escaped value back; `None` on a stray `&`.
pub fn unescape(s: &str) -> (r: Option<String>)
    ensures
        match r {
            Some(t) => unescape_text(s@) == Some(t@),
            None => unescape_text(s@) is None,
        },
    decreases s@.len(),
{
    let n = s.unicode_len();
    if n == 0 {
        Some(String::new())
    } else {
        let c = s.get_char(0);
        if c == '&' {
            if n >= 5 && s.get_char(1) == 'a' && s.get_char(2) == 'm' && s.get_char(3) == 'p'
                && s.get_char(4) == ';' {
                match unescape(s.substring_char(5, n)) {
                    Some(t) => {
                        proof {
                            assert(s@.subrange(5, n as int) =~= s@.skip(5));
                        }
                        let mut out = String::from_str("&");
                        out.append(t.as_str());
                        proof {
                            reveal_strlit("&");
                            assert(out@ =~= seq!['&'] + t@);
                        }
                        Some(out)
                    },
                    None => {
                        proof {
                            assert(s@.subrange(5, n as int) =~= s@.skip(5));
                        }
                        None
                    },
                }
            } else if n >= 4 && s.get_char(1) == 'l' && s.get_char(2) == 't' && s.get_char(3)
                == ';' {
                match unescape(s.substring_char(4, n)) {
                    Some(t) => {
                        proof {
                            assert(s@.subrange(4, n as int) =~= s@.skip(4));
                        }
                        let mut out = String::from_str("<");
                        out.append(t.as_str());
                        proof {
                            reveal_strlit("<");
                            assert(out@ =~= seq!['<'] + t@);
                        }
                        Some(out)
                    },
                    None => {
                        proof {
                            assert(s@.subrange(4, n as int) =~= s@.skip(4));
                        }
                        None
                    },
                }
            } else if n >= 4 && s.get_char(1) == 'g' && s.get_char(2) == 't' && s.get_char(3)
                == ';' {
                match unescape(s.substring_char(4, n)) {
                    Some(t) => {
                        proof {
                            assert(s@.subrange(4, n as int) =~= s@.skip(4));
                        }
                        let mut out = String::from_str(">");
                        out.append(t.as_str());
                        proof {
                            reveal_strlit(">");
                            assert(out@ =~= seq!['>'] + t@);
                        }
                        Some(out)
                    },
                    None => {
                        proof {
                            assert(s@.subrange(4, n as int) =~= s@.skip(4));
                        }
                        None
                    },
                }
            } else if n >= 6 && s.get_char(1) == 'q' && s.get_char(2) == 'u' && s.get_char(3) == 'o'
                && s.get_char(4) == 't' && s.get_char(5) == ';' {
                match unescape(s.substring_char(6, n)) {
                    Some(t) => {
                        proof {
                            assert(s@.subrange(6, n as int) =~= s@.skip(6));
                        }
                        let mut out = String::from_str("\"");
                        out.append(t.as_str());
                        proof {
                            reveal_strlit("\"");
                            assert(out@ =~= seq!['"'] + t@);
                        }
                        Some(out)
                    },
                    None => {
                        proof {
                            assert(s@.subrange(6, n as int) =~= s@.skip(6));
                        }
                        None
                    },
                }
            } else if n >= 6 && s.get_char(1) == 'a' && s.get_char(2) == 'p' && s.get_char(3) == 'o'
                && s.get_char(4) == 's' && s.get_char(5) == ';' {
                match unescape(s.substring_char(6, n)) {
                    Some(t) => {
                        proof {
                            assert(s@.subrange(6, n as int) =~= s@.skip(6));
                        }
                        let mut out = String::from_str("'");
                        out.append(t.as_str());
                        proof {
                            reveal_strlit("'");
                            assert(out@ =~= seq!['\''] + t@);
                        }
                        Some(out)
                    },
                    None => {
                        proof {
                            assert(s@.subrange(6, n as int) =~= s@.skip(6));
                        }
                        None
                    },
                }
            } else {
                None
            }
        } else {
            match unescape(s.substring_char(1, n)) {
                Some(t) => {
                    proof {
                        assert(s@.subrange(1, n as int) =~= s@.drop_first());
                    }
                    let mut out = String::from_str(s.substring_char(0, 1));
                    out.append(t.as_str());
                    proof {
                        assert(out@ =~= seq![s@[0]] + t@);
                    }
                    Some(out)
                },
                None => {
                    proof {
                        assert(s@.subrange(1, n as int) =~= s@.drop_first());
                    }
                    None
                },
            }
        }
    }
}

} // verus!
