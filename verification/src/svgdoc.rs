//! The vector-document model: a tree of SVG elements with attributes,
//! text content and child elements, and its exact serialization to XML
//! text.
//!
//! The chart engine builds its whole output as [`Element`] values, so the
//! contracts can speak about the document's structure; rendering to text
//! is a verified serializer with XML escaping.

use vstd::prelude::*;
use vstd::string::StringExecFns;
use crate::coord::Coord;
use crate::numfmt::{push_coord_decimal, spec_coord_str};

verus! {

broadcast use vstd::std_specs::vec::axiom_vec_index_decreases;

/// Relies on `String::push`: appends exactly the given character.
pub assume_specification[ String::push ](s: &mut String, ch: char)
    ensures
        final(s)@ == old(s)@.push(ch),
;

/// One attribute: a name and a value, both text.
#[derive(Debug)]
pub struct Attr {
    pub name: String,
    pub value: String,
}

/// One SVG element: a tag name, attributes in output order, optional
/// text content, and child elements in draw order.
#[derive(Debug)]
pub struct Element {
    pub name: String,
    pub attrs: Vec<Attr>,
    pub text: Option<String>,
    pub children: Vec<Element>,
}

/// The escaped form of one character in XML text or attribute values.
/// Attribute values (`quot == true`) additionally escape the quote.
pub open spec fn spec_escape_char(c: char, quot: bool) -> Seq<char> {
    if c == '&' {
        seq!['&', 'a', 'm', 'p', ';']
    } else if c == '<' {
        seq!['&', 'l', 't', ';']
    } else if c == '>' {
        seq!['&', 'g', 't', ';']
    } else if c == '"' && quot {
        seq!['&', 'q', 'u', 'o', 't', ';']
    } else {
        seq![c]
    }
}

/// The escaped form of a character sequence.
pub open spec fn spec_escape(s: Seq<char>, quot: bool) -> Seq<char>
    decreases s.len(),
{
    if s.len() == 0 {
        Seq::empty()
    } else {
        spec_escape(s.drop_last(), quot) + spec_escape_char(s.last(), quot)
    }
}

/// The text of one rendered attribute: ` name="value"` with the value
/// escaped.
pub open spec fn spec_render_attr(a: Attr) -> Seq<char> {
    seq![' '] + a.name@ + seq!['=', '"'] + spec_escape(a.value@, true) + seq!['"']
}

/// The text of a rendered attribute sequence, in order.
pub open spec fn spec_render_attrs(attrs: Seq<Attr>) -> Seq<char>
    decreases attrs.len(),
{
    if attrs.len() == 0 {
        Seq::empty()
    } else {
        spec_render_attrs(attrs.drop_last()) + spec_render_attr(attrs.last())
    }
}

/// The text of one rendered element: `<name attrs.../>` when empty,
/// otherwise `<name attrs...>text children</name>`.
pub open spec fn spec_render_elem(e: Element) -> Seq<char>
    decreases e, 1int,
{
    let open_tag = seq!['<'] + e.name@ + spec_render_attrs(e.attrs@);
    if e.text is None && e.children@.len() == 0 {
        open_tag + seq!['/', '>']
    } else {
        let inner = match e.text {
            Some(t) => spec_escape(t@, false),
            None => Seq::empty(),
        };
        open_tag + seq!['>'] + inner + spec_render_upto(e.children, e.children@.len() as int)
            + seq!['<', '/'] + e.name@ + seq!['>']
    }
}

/// The concatenated text of the first `n` children.
pub open spec fn spec_render_upto(cs: Vec<Element>, n: int) -> Seq<char>
    decreases cs, 0int, n,
{
    if n <= 0 || n > cs.len() {
        Seq::empty()
    } else {
        spec_render_upto(cs, n - 1) + spec_render_elem(cs[n - 1])
    }
}

impl Element {
    /// A fresh element with the given tag name, no attributes, no text,
    /// no children.
    pub fn new(name: &str) -> (r: Self)
        ensures
            r.name@ == name@,
            r.attrs@.len() == 0,
            r.text is None,
            r.children@.len() == 0,
    {
        Element { name: String::from_str(name), attrs: Vec::new(), text: None, children: Vec::new() }
    }

    /// Append one attribute (builder style).  The engine never sets the
    /// same attribute name twice on an element.
    pub fn set(self, name: &str, value: String) -> (r: Self)
        ensures
            r.name == self.name,
            r.text == self.text,
            r.children == self.children,
            r.attrs@.len() == self.attrs@.len() + 1,
            forall|i: int| 0 <= i < self.attrs@.len() ==> r.attrs@[i] == self.attrs@[i],
            r.attrs@.last().name@ == name@,
            r.attrs@.last().value == value,
    {
        let mut attrs = self.attrs;
        attrs.push(Attr { name: String::from_str(name), value });
        Element { name: self.name, attrs, text: self.text, children: self.children }
    }

    /// Append one child element (builder style).
    pub fn add(self, child: Element) -> (r: Self)
        ensures
            r.name == self.name,
            r.text == self.text,
            r.attrs == self.attrs,
            r.children@ == self.children@.push(child),
    {
        let mut children = self.children;
        children.push(child);
        Element { name: self.name, attrs: self.attrs, text: self.text, children }
    }

    /// Replace the element's text content (builder style).
    pub fn with_text(self, text: String) -> (r: Self)
        ensures
            r.name == self.name,
            r.attrs == self.attrs,
            r.children == self.children,
            r.text == Some(text),
    {
        Element { name: self.name, attrs: self.attrs, text: Some(text), children: self.children }
    }

    /// Render the element, its attributes and its subtree as XML text.
    pub fn to_xml_string(&self) -> (s: String)
        ensures
            s@ == spec_render_elem(*self),
    {
        let mut s = String::new();
        render_elem(&mut s, self);
        proof {
            assert(s@ =~= spec_render_elem(*self));
        }
        s
    }
}

/// Append the escaped form of `t` to `out`.
pub fn push_escaped(out: &mut String, t: &str, quot: bool)
    ensures
        final(out)@ == old(out)@ + spec_escape(t@, quot),
{
    proof {
        reveal_strlit("&amp;");
        reveal_strlit("&lt;");
        reveal_strlit("&gt;");
        reveal_strlit("&quot;");
    }
    let n = t.unicode_len();
    let mut i: usize = 0;
    while i < n
        invariant
            n == t@.len(),
            0 <= i <= n,
            out@ == old(out)@ + spec_escape(t@.take(i as int), quot),
        decreases n - i,
    {
        let c = t.get_char(i);
        if c == '&' {
            out.append("&amp;");
        } else if c == '<' {
            out.append("&lt;");
        } else if c == '>' {
            out.append("&gt;");
        } else if c == '"' && quot {
            out.append("&quot;");
        } else {
            out.push(c);
        }
        proof {
            reveal_strlit("&amp;");
            reveal_strlit("&lt;");
            reveal_strlit("&gt;");
            reveal_strlit("&quot;");
            let pre = t@.take(i as int);
            let cur = t@.take(i + 1 as int);
            assert(cur.drop_last() =~= pre);
            assert(cur.last() == t@[i as int]);
            assert(out@ =~= old(out)@ + spec_escape(cur, quot));
        }
        i = i + 1;
    }
    proof {
        assert(t@.take(n as int) =~= t@);
    }
}

/// Append the rendered attribute list to `out`.
fn render_attrs(out: &mut String, attrs: &Vec<Attr>)
    ensures
        final(out)@ == old(out)@ + spec_render_attrs(attrs@),
{
    proof {
        reveal_strlit(" ");
        reveal_strlit("=\"");
        reveal_strlit("\"");
    }
    let n = attrs.len();
    let mut i: usize = 0;
    while i < n
        invariant
            n == attrs@.len(),
            0 <= i <= n,
            out@ == old(out)@ + spec_render_attrs(attrs@.take(i as int)),
        decreases n - i,
    {
        out.append(" ");
        out.append(attrs[i].name.as_str());
        out.append("=\"");
        push_escaped(out, attrs[i].value.as_str(), true);
        out.append("\"");
        proof {
            reveal_strlit(" ");
            reveal_strlit("=\"");
            reveal_strlit("\"");
            let pre = attrs@.take(i as int);
            let cur = attrs@.take(i + 1 as int);
            assert(cur.drop_last() =~= pre);
            assert(cur.last() == attrs@[i as int]);
            assert(" "@ =~= seq![' ']);
            assert("=\""@ =~= seq!['=', '"']);
            assert("\""@ =~= seq!['"']);
            assert(" "@ + attrs@[i as int].name@ + "=\""@ + spec_escape(
                attrs@[i as int].value@,
                true,
            ) + "\""@ =~= spec_render_attr(attrs@[i as int]));
            assert(out@ =~= old(out)@ + spec_render_attrs(cur));
        }
        i = i + 1;
    }
    proof {
        assert(attrs@.take(n as int) =~= attrs@);
    }
}

/// Append the rendered element to `out`.
fn render_elem(out: &mut String, e: &Element)
    ensures
        final(out)@ == old(out)@ + spec_render_elem(*e),
    decreases *e,
{
    proof {
        reveal_strlit("<");
        reveal_strlit(">");
        reveal_strlit("/>");
        reveal_strlit("</");
    }
    out.append("<");
    out.append(e.name.as_str());
    render_attrs(out, &e.attrs);
    let no_text = e.text.is_none();
    if no_text && e.children.len() == 0 {
        out.append("/>");
        proof {
            reveal_strlit("<");
            reveal_strlit("/>");
            assert("<"@ =~= seq!['<']);
            assert("/>"@ =~= seq!['/', '>']);
            assert(out@ =~= old(out)@ + spec_render_elem(*e));
        }
    } else {
        out.append(">");
        match &e.text {
            Some(t) => {
                push_escaped(out, t.as_str(), false);
            },
            None => {},
        }
        let ghost mid = out@;
        let n = e.children.len();
        let mut i: usize = 0;
        while i < n
            invariant
                n == e.children@.len(),
                0 <= i <= n,
                out@ == mid + spec_render_upto(e.children, i as int),
                decreases_to!(*e => e.children),
            decreases n - i,
        {
            proof {
                assert(decreases_to!(e.children => e.children@[i as int]));
            }
            render_elem(out, &e.children[i]);
            proof {
                assert(out@ =~= mid + spec_render_upto(e.children, i + 1 as int));
            }
            i = i + 1;
        }
        out.append("</");
        out.append(e.name.as_str());
        out.append(">");
        proof {
            reveal_strlit("<");
            reveal_strlit(">");
            reveal_strlit("</");
            assert("<"@ =~= seq!['<']);
            assert(">"@ =~= seq!['>']);
            assert("</"@ =~= seq!['<', '/']);
            assert(out@ =~= old(out)@ + spec_render_elem(*e));
        }
    }
}

/// One command of an SVG path's data: an absolute move, an absolute or
/// relative line, or closing the path.
#[derive(Debug, Clone, Copy, PartialEq, Eq, Structural)]
pub enum PathCmd {
    MoveTo(Coord, Coord),
    LineTo(Coord, Coord),
    LineBy(Coord, Coord),
    Close,
}

/// The text of one path command.
pub open spec fn spec_render_cmd(c: PathCmd) -> Seq<char> {
    match c {
        PathCmd::MoveTo(x, y) => seq!['M'] + spec_coord_str(x.micros as int) + seq![',']
            + spec_coord_str(y.micros as int),
        PathCmd::LineTo(x, y) => seq!['L'] + spec_coord_str(x.micros as int) + seq![',']
            + spec_coord_str(y.micros as int),
        PathCmd::LineBy(x, y) => seq!['l'] + spec_coord_str(x.micros as int) + seq![',']
            + spec_coord_str(y.micros as int),
        PathCmd::Close => seq!['z'],
    }
}

/// The text of a whole path: its commands separated by single spaces.
pub open spec fn spec_render_path(cmds: Seq<PathCmd>) -> Seq<char>
    decreases cmds.len(),
{
    if cmds.len() == 0 {
        Seq::empty()
    } else if cmds.len() == 1 {
        spec_render_cmd(cmds[0])
    } else {
        spec_render_path(cmds.drop_last()) + seq![' '] + spec_render_cmd(cmds.last())
    }
}

/// Render a path command list to the text of a `d` attribute.
pub fn render_path_data(cmds: &Vec<PathCmd>) -> (s: String)
    ensures
        s@ == spec_render_path(cmds@),
{
    let mut s = String::new();
    let n = cmds.len();
    let mut i: usize = 0;
    while i < n
        invariant
            n == cmds@.len(),
            0 <= i <= n,
            s@ == spec_render_path(cmds@.take(i as int)),
        decreases n - i,
    {
        proof {
            reveal_strlit(" ");
        }
        if i > 0 {
            s.append(" ");
        }
        push_path_cmd(&mut s, cmds[i]);
        proof {
            let pre = cmds@.take(i as int);
            let cur = cmds@.take(i + 1 as int);
            assert(cur.drop_last() =~= pre);
            assert(cur.last() == cmds@[i as int]);
            assert(" "@ =~= seq![' ']);
            assert(s@ =~= spec_render_path(cur));
        }
        i = i + 1;
    }
    proof {
        assert(cmds@.take(n as int) =~= cmds@);
    }
    s
}

/// Append the text of one path command to `s`.
fn push_path_cmd(s: &mut String, c: PathCmd)
    ensures
        final(s)@ == old(s)@ + spec_render_cmd(c),
{
    proof {
        reveal_strlit("M");
        reveal_strlit("L");
        reveal_strlit("l");
        reveal_strlit("z");
        reveal_strlit(",");
    }
    match c {
        PathCmd::MoveTo(x, y) => {
            s.append("M");
            push_coord_decimal(s, x.micros);
            s.append(",");
            push_coord_decimal(s, y.micros);
        },
        PathCmd::LineTo(x, y) => {
            s.append("L");
            push_coord_decimal(s, x.micros);
            s.append(",");
            push_coord_decimal(s, y.micros);
        },
        PathCmd::LineBy(x, y) => {
            s.append("l");
            push_coord_decimal(s, x.micros);
            s.append(",");
            push_coord_decimal(s, y.micros);
        },
        PathCmd::Close => {
            s.append("z");
        },
    }
    proof {
        assert("M"@ =~= seq!['M']);
        assert("L"@ =~= seq!['L']);
        assert("l"@ =~= seq!['l']);
        assert("z"@ =~= seq!['z']);
        assert(","@ =~= seq![',']);
        assert(final(s)@ =~= old(s)@ + spec_render_cmd(c));
    }
}

/// Structural equality of two elements: the same name, text, attributes
/// and, child for child, the same subtrees.  (Two distinct tree values
/// may satisfy this; it pins every observable part of the element.)
pub open spec fn elem_like(a: Element, b: Element) -> bool
    decreases a, 1int,
{
    &&& a.name == b.name
    &&& a.text == b.text
    &&& a.attrs@ == b.attrs@
    &&& a.children@.len() == b.children@.len()
    &&& elems_like_upto(a.children, b.children, a.children@.len() as int)
}

/// The first `n` children are pairwise structurally equal.
pub open spec fn elems_like_upto(av: Vec<Element>, bv: Vec<Element>, n: int) -> bool
    decreases av, 0int, n,
{
    if n <= 0 || n > av.len() || n > bv.len() {
        true
    } else {
        elems_like_upto(av, bv, n - 1) && elem_like(av[n - 1], bv[n - 1])
    }
}

impl Element {
    /// A structurally equal copy of the element and its whole subtree.
    pub fn duplicate(&self) -> (r: Element)
        ensures
            elem_like(r, *self),
        decreases *self,
    {
        let name = self.name.clone();
        let text = match &self.text {
            Some(t) => Some(t.clone()),
            None => None,
        };
        let mut attrs: Vec<Attr> = Vec::new();
        let na = self.attrs.len();
        let mut i: usize = 0;
        while i < na
            invariant
                na == self.attrs@.len(),
                0 <= i <= na,
                attrs@ =~= self.attrs@.take(i as int),
            decreases na - i,
        {
            attrs.push(Attr { name: self.attrs[i].name.clone(), value: self.attrs[i].value.clone() });
            proof {
                assert(attrs@.last() == self.attrs@[i as int]);
                assert(attrs@ =~= self.attrs@.take(i + 1 as int));
            }
            i = i + 1;
        }
        proof {
            assert(self.attrs@.take(na as int) =~= self.attrs@);
        }
        let mut children: Vec<Element> = Vec::new();
        let nc = self.children.len();
        let mut j: usize = 0;
        while j < nc
            invariant
                nc == self.children@.len(),
                0 <= j <= nc,
                children@.len() == j,
                elems_like_upto(children, self.children, j as int),
                decreases_to!(*self => self.children),
            decreases nc - j,
        {
            proof {
                assert(decreases_to!(self.children => self.children@[j as int]));
            }
            let c = self.children[j].duplicate();
            let ghost pre = children;
            children.push(c);
            proof {
                lemma_elems_like_push(pre, children, self.children, j as int, c);
            }
            j = j + 1;
        }
        Element { name, attrs, text, children }
    }
}

/// Extending a pairwise-equal prefix by one more equal child keeps the
/// prefix pairwise equal.
proof fn lemma_elems_like_push(
    pre: Vec<Element>,
    cur: Vec<Element>,
    bv: Vec<Element>,
    j: int,
    c: Element,
)
    requires
        pre@.len() == j,
        cur@ == pre@.push(c),
        0 <= j < bv@.len(),
        elems_like_upto(pre, bv, j),
        elem_like(c, bv[j]),
    ensures
        elems_like_upto(cur, bv, j + 1),
    decreases j,
{
    lemma_elems_like_prefix_agree(pre, cur, bv, j);
    assert(cur[j] == c);
}

/// Two vectors that agree on their first `n` entries satisfy the same
/// pairwise prefix equality.
proof fn lemma_elems_like_prefix_agree(
    av1: Vec<Element>,
    av2: Vec<Element>,
    bv: Vec<Element>,
    n: int,
)
    requires
        0 <= n <= av1@.len(),
        n <= av2@.len(),
        n <= bv@.len(),
        forall|k: int| 0 <= k < n ==> av1[k] == av2[k],
        elems_like_upto(av1, bv, n),
    ensures
        elems_like_upto(av2, bv, n),
    decreases n,
{
    if n > 0 {
        lemma_elems_like_prefix_agree(av1, av2, bv, n - 1);
    }
}

} // verus!
