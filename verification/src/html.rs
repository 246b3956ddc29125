//! HTML front end: the document that the HTML5 parser builds, walked into the
//! UI tree.
use vstd::prelude::*;
use kuchiki::iter::NodeEdge;
use kuchiki::traits::TendrilSink;
use kuchiki::NodeData;
use crate::text::{
    chars_of, copy, dec, eq_ic, eq_ic_str, find, lower, parse_u8, parse_u8_v, push_all, push_dec, push_str, same,
    same_str, slice_of, split_char, split_char_v, starts_with, starts_with_str, strip_prefixes,
    strip_prefixes_str, to_lowercase, trim, trim_v, views,
};
use crate::num::{hex2, hex_val, hex_val_v, push_hex2, resv, Halt, SHalt};
use crate::dom::{nviews, pget, pinsert, snew, LuauNode, PropMap, SNode, SProps};
use crate::mapping::{
    ascii_only, is_ascii, keep_number_chars, keep_number_chars_v, lemma_utf8_ascii, three_bytes,
    utf8_len,
};
use crate::resolver::{put_all, put_all_v};
use crate::layout::{size, sizes};

verus! {

/// Attributes as `(namespace, local name, value)` triples.
pub type SAttrs = Seq<(Seq<char>, Seq<char>, Seq<char>)>;

/// What a document node is, by value.
pub enum SKind {
    Element(Seq<char>, SAttrs),
    Text(Seq<char>),
    Other,
}

/// One step of a walk through the document: a node entered, or left.
pub enum SEvent {
    Start(SKind),
    End,
}

/// A document node and its children, by value.
pub struct SHtml {
    pub kind: SKind,
    pub kids: Seq<SHtml>,
}

/// One attribute of an element.
pub struct HtmlAttr {
    pub ns: String,
    pub name: String,
    pub value: String,
}

/// What a document node is: an element with its tag name and attributes, a
/// text node, or anything else (the document itself, a comment, a doctype).
pub enum HtmlKind {
    Element(String, Vec<HtmlAttr>),
    Text(String),
    Other,
}

/// One step of a walk through the document in tree order.
pub enum HtmlEvent {
    Start(HtmlKind),
    End,
}

/// A document node and its children.
pub struct HtmlNode {
    pub kind: HtmlKind,
    pub children: Vec<HtmlNode>,
}

impl View for HtmlAttr {
    type V = (Seq<char>, Seq<char>, Seq<char>);

    open spec fn view(&self) -> (Seq<char>, Seq<char>, Seq<char>) {
        (self.ns@, self.name@, self.value@)
    }
}

pub open spec fn attrs_view(a: Seq<HtmlAttr>) -> SAttrs {
    a.map_values(|x: HtmlAttr| x@)
}

impl View for HtmlKind {
    type V = SKind;

    open spec fn view(&self) -> SKind {
        match self {
            HtmlKind::Element(n, a) => SKind::Element(n@, attrs_view(a@)),
            HtmlKind::Text(t) => SKind::Text(t@),
            HtmlKind::Other => SKind::Other,
        }
    }
}

impl View for HtmlEvent {
    type V = SEvent;

    open spec fn view(&self) -> SEvent {
        match self {
            HtmlEvent::Start(k) => SEvent::Start(k@),
            HtmlEvent::End => SEvent::End,
        }
    }
}

pub open spec fn events_view(e: Seq<HtmlEvent>) -> Seq<SEvent> {
    e.map_values(|x: HtmlEvent| x@)
}

pub open spec fn hview(n: HtmlNode) -> SHtml
    decreases n,
{
    SHtml { kind: n.kind@, kids: hviews(n.children@) }
}

pub open spec fn hviews(s: Seq<HtmlNode>) -> Seq<SHtml>
    decreases s,
{
    if s.len() == 0 {
        Seq::empty()
    } else {
        seq![hview(s[0])] + hviews(s.drop_first())
    }
}

impl View for HtmlNode {
    type V = SHtml;

    open spec fn view(&self) -> SHtml {
        hview(*self)
    }
}

pub proof fn lemma_hviews(s: Seq<HtmlNode>)
    ensures
        hviews(s).len() == s.len(),
        forall|i: int| 0 <= i < s.len() ==> #[trigger] hviews(s)[i] == hview(s[i]),
    decreases s.len(),
{
    if s.len() > 0 {
        lemma_hviews(s.drop_first());
        assert forall|i: int| 0 <= i < s.len() implies #[trigger] hviews(s)[i] == hview(s[i]) by {
            if i > 0 {
                assert(s.drop_first()[i - 1] == s[i]);
            }
        }
    }
}

pub proof fn lemma_hviews_push(s: Seq<HtmlNode>, x: HtmlNode)
    ensures
        hviews(s.push(x)) == hviews(s).push(hview(x)),
{
    lemma_hviews(s);
    lemma_hviews(s.push(x));
    assert(hviews(s.push(x)) =~= hviews(s).push(hview(x)));
}

/// The walk through the document that the HTML5 parser builds from `html`.
pub uninterp spec fn html_events(html: Seq<char>) -> Seq<SEvent>;

/// `kuchiki::parse_html().one(html)`, walked with `traverse_inclusive`: each
/// node gives a start step (its kind, with an element's tag name and all its
/// attributes) and, after those of its descendants, an end step.  The
/// contract only names the result: what the parser builds from the text is
/// left to the HTML5 parsing algorithm.
#[verifier::external_body]
fn document_events(html: &str) -> (r: Vec<HtmlEvent>)
    ensures
        events_view(r@) == html_events(html@),
{
    let doc = kuchiki::parse_html().one(html);
    doc.traverse_inclusive().map(|edge| match edge {
        NodeEdge::Start(n) => HtmlEvent::Start(match n.data() {
            NodeData::Element(e) => HtmlKind::Element(e.name.local.to_string(),
                e.attributes.borrow().map.iter().map(|(k, a)| HtmlAttr {
                    ns: k.ns.to_string(), name: k.local.to_string(), value: a.value.clone() }).collect()),
            NodeData::Text(t) => HtmlKind::Text(t.borrow().clone()),
            _ => HtmlKind::Other,
        }),
        NodeEdge::End(_) => HtmlEvent::End,
    }).collect()
}

pub open spec fn clamp(j: int, lo: int, hi: int) -> int {
    if j < lo {
        lo
    } else if j > hi {
        hi
    } else {
        j
    }
}

/// The nodes whose walks follow one another from position `i` up to an end
/// step (or the end of the walk), and the position where they stop.
pub open spec fn forest(evs: Seq<SEvent>, i: int) -> (Seq<SHtml>, int)
    decreases evs.len() - i, 1int,
{
    if i < 0 || i >= evs.len() || evs[i] is End {
        (Seq::empty(), i)
    } else {
        let first = one_node(evs, i);
        let j = clamp(first.1, i + 1, evs.len() as int);
        let rest = forest(evs, j);
        (seq![first.0] + rest.0, rest.1)
    }
}

/// The node whose walk starts at position `i`, and the position after its end step.
pub open spec fn one_node(evs: Seq<SEvent>, i: int) -> (SHtml, int)
    decreases evs.len() - i, 0int,
{
    if 0 <= i < evs.len() {
        let inner = forest(evs, i + 1);
        let j = clamp(inner.1, i + 1, evs.len() as int);
        let kind = match evs[i] {
            SEvent::Start(k) => k,
            SEvent::End => SKind::Other,
        };
        (SHtml { kind, kids: inner.0 }, if j < evs.len() { j + 1 } else { j })
    } else {
        (SHtml { kind: SKind::Other, kids: Seq::empty() }, i + 1)
    }
}

/// The document: the nodes of the whole walk.
pub open spec fn document(evs: Seq<SEvent>) -> Seq<SHtml> {
    forest(evs, 0).0
}

fn copy_attrs(a: &Vec<HtmlAttr>) -> (r: Vec<HtmlAttr>)
    ensures
        attrs_view(r@) == attrs_view(a@),
{
    let mut r: Vec<HtmlAttr> = Vec::new();
    let mut i: usize = 0;
    while i < a.len()
        invariant
            i <= a.len(),
            attrs_view(r@) == attrs_view(a@).take(i as int),
        decreases a.len() - i,
    {
        let x = HtmlAttr { ns: a[i].ns.clone(), name: a[i].name.clone(), value: a[i].value.clone() };
        let ghost before = r@;
        r.push(x);
        assert(attrs_view(r@) =~= attrs_view(before).push(x@));
        assert(attrs_view(a@).take(i + 1) =~= attrs_view(a@).take(i as int).push(a@[i as int]@));
        i = i + 1;
    }
    assert(attrs_view(a@).take(a.len() as int) =~= attrs_view(a@));
    r
}

fn copy_kind(k: &HtmlKind) -> (r: HtmlKind)
    ensures
        r@ == k@,
{
    match k {
        HtmlKind::Element(n, a) => HtmlKind::Element(n.clone(), copy_attrs(a)),
        HtmlKind::Text(t) => HtmlKind::Text(t.clone()),
        HtmlKind::Other => HtmlKind::Other,
    }
}

fn is_start(e: &HtmlEvent) -> (r: bool)
    ensures
        r == (e@ is Start),
{
    match e {
        HtmlEvent::Start(_) => true,
        HtmlEvent::End => false,
    }
}

fn clamp_v(j: usize, lo: usize, hi: usize) -> (r: usize)
    requires
        lo <= hi,
    ensures
        r == clamp(j as int, lo as int, hi as int),
{
    if j < lo {
        lo
    } else if j > hi {
        hi
    } else {
        j
    }
}

fn forest_v(evs: &Vec<HtmlEvent>, i: usize) -> (r: (Vec<HtmlNode>, usize))
    requires
        i <= evs.len(),
    ensures
        hviews(r.0@) == forest(events_view(evs@), i as int).0,
        r.1 == forest(events_view(evs@), i as int).1,
    decreases evs.len() - i, 1usize,
{
    let ghost e = events_view(evs@);
    let mut acc: Vec<HtmlNode> = Vec::new();
    let mut pos: usize = i;
    assert(hviews(acc@) =~= Seq::<SHtml>::empty());
    while pos < evs.len() && is_start(&evs[pos])
        invariant
            i <= pos <= evs.len(),
            e == events_view(evs@),
            forest(e, i as int) == (hviews(acc@) + forest(e, pos as int).0, forest(e, pos as int).1),
        decreases evs.len() - pos,
    {
        assert(e[pos as int] == evs@[pos as int]@);
        let (n, j) = node_v(evs, pos);
        let j2 = clamp_v(j, pos + 1, evs.len());
        let ghost before = acc@;
        acc.push(n);
        proof {
            lemma_hviews_push(before, n);
            let f = forest(e, pos as int);
            let g = forest(e, j2 as int);
            assert(f.0 == seq![hview(n)] + g.0);
            assert(hviews(acc@) + g.0 =~= hviews(before) + f.0);
        }
        pos = j2;
    }
    proof {
        if pos < evs.len() {
            assert(e[pos as int] == evs@[pos as int]@);
        }
        assert(hviews(acc@) + Seq::<SHtml>::empty() =~= hviews(acc@));
    }
    (acc, pos)
}

fn node_v(evs: &Vec<HtmlEvent>, i: usize) -> (r: (HtmlNode, usize))
    requires
        i < evs.len(),
    ensures
        hview(r.0) == one_node(events_view(evs@), i as int).0,
        r.1 == one_node(events_view(evs@), i as int).1,
    decreases evs.len() - i, 0usize,
{
    let (kids, j) = forest_v(evs, i + 1);
    let j2 = clamp_v(j, i + 1, evs.len());
    let kind = match &evs[i] {
        HtmlEvent::Start(k) => copy_kind(k),
        HtmlEvent::End => HtmlKind::Other,
    };
    assert(events_view(evs@)[i as int] == evs@[i as int]@);
    let next = if j2 < evs.len() {
        j2 + 1
    } else {
        j2
    };
    (HtmlNode { kind, children: kids }, next)
}

/// The document built from a walk.
pub fn document_v(evs: &Vec<HtmlEvent>) -> (r: Vec<HtmlNode>)
    ensures
        hviews(r@) == document(events_view(evs@)),
{
    forest_v(evs, 0).0
}

/// The first element in tree order whose tag name is `name`, or the first
/// element at all for `None`: what `select_first` gives for a type selector
/// (or `*`).
pub open spec fn first_element(ns: Seq<SHtml>, name: Option<Seq<char>>) -> Option<SHtml>
    decreases ns,
{
    if ns.len() == 0 {
        None
    } else {
        let n = ns[0];
        let hit = match n.kind {
            SKind::Element(t, _) => name is None || name == Some(t),
            _ => false,
        };
        if hit {
            Some(n)
        } else {
            match first_element(n.kids, name) {
                Some(x) => Some(x),
                None => first_element(ns.drop_first(), name),
            }
        }
    }
}

/// The element the UI tree is built from: the first `body`, else the first
/// `html`, else the first `div`, else the first element.
pub open spec fn root_of(doc: Seq<SHtml>) -> Option<SHtml> {
    match first_element(doc, Some("body"@)) {
        Some(r) => Some(r),
        None => match first_element(doc, Some("html"@)) {
            Some(r) => Some(r),
            None => match first_element(doc, Some("div"@)) {
                Some(r) => Some(r),
                None => first_element(doc, None),
            },
        },
    }
}

/// `attributes.get(key)`: the value of the attribute named `key` in no namespace.
pub open spec fn attr(a: SAttrs, key: Seq<char>) -> Option<Seq<char>>
    decreases a.len(),
{
    if a.len() == 0 {
        None
    } else if a[0].0.len() == 0 && a[0].1 == key {
        Some(a[0].2)
    } else {
        attr(a.drop_first(), key)
    }
}

/// `instance_type_from_tag`: the Roblox class for a tag (compared in lower
/// case) and, for `input`, its `type` attribute.
pub open spec fn instance_type(tag: Seq<char>, input_type: Option<Seq<char>>) -> Seq<char> {
    let t = lower(tag);
    if t == "screengui"@ || t == "gui"@ {
        "ScreenGui"@
    } else if t == "billboard"@ || t == "billboardgui"@ {
        "BillboardGui"@
    } else if t == "surface"@ || t == "surfacegui"@ {
        "SurfaceGui"@
    } else if t == "div"@ || t == "section"@ || t == "main"@ || t == "header"@ || t == "footer"@
        || t == "article"@ || t == "nav"@ || t == "aside"@ {
        "Frame"@
    } else if t == "p"@ || t == "span"@ || t == "h1"@ || t == "h2"@ || t == "h3"@ || t == "h4"@
        || t == "h5"@ || t == "h6"@ || t == "label"@ || t == "figcaption"@ || t == "caption"@ {
        "TextLabel"@
    } else if t == "button"@ || t == "a"@ {
        "TextButton"@
    } else if t == "img"@ || t == "picture"@ {
        "ImageLabel"@
    } else if t == "input"@ {
        match input_type {
            Some(s) => if eq_ic(s, "checkbox"@) || eq_ic(s, "radio"@) {
                "TextButton"@
            } else {
                "TextBox"@
            },
            None => "TextBox"@,
        }
    } else if t == "scroll"@ || t == "scrollview"@ {
        "ScrollingFrame"@
    } else if t == "textarea"@ {
        "TextBox"@
    } else if t == "canvas"@ {
        "CanvasGroup"@
    } else if t == "viewport"@ {
        "ViewportFrame"@
    } else if t == "video"@ {
        "VideoFrame"@
    } else if t == "imagebutton"@ || t == "imgbutton"@ {
        "ImageButton"@
    } else {
        "Frame"@
    }
}

/// `is_text_container`: tags whose text becomes the node's `Text`.
pub open spec fn text_container(tag: Seq<char>) -> bool {
    let t = lower(tag);
    t == "p"@ || t == "span"@ || t == "h1"@ || t == "h2"@ || t == "h3"@ || t == "h4"@ || t == "h5"@
        || t == "h6"@ || t == "label"@ || t == "button"@ || t == "a"@
}

/// `is_inline_formatting`: tags that only format text.
pub open spec fn inline_formatting(tag: Seq<char>) -> bool {
    let t = lower(tag);
    t == "b"@ || t == "i"@ || t == "u"@ || t == "span"@
}

/// One `key: value` part of a `style` attribute stored into `acc`.
pub open spec fn style_entry(acc: SProps, part: Seq<char>) -> SProps {
    let p = trim(part);
    match find(p, seq![':']) {
        Some(i) => pinsert(acc, trim(p.take(i)), trim(p.skip(i + 1))),
        None => acc,
    }
}

pub open spec fn style_from(acc: SProps, parts: Seq<Seq<char>>) -> SProps
    decreases parts.len(),
{
    if parts.len() == 0 {
        acc
    } else {
        style_entry(style_from(acc, parts.drop_last()), parts.last())
    }
}

/// `parse_inline_style`: the `;`-separated declarations of a `style`
/// attribute, later ones overwriting earlier ones.
pub open spec fn inline_style(style: Seq<char>) -> SProps {
    style_from(Seq::empty(), split_char(style, ';'))
}

/// `color_from_style`: `color`, else `background-color`.
pub open spec fn style_color(m: SProps) -> Option<Seq<char>> {
    match pget(m, "color"@) {
        Some(c) => Some(c),
        None => pget(m, "background-color"@),
    }
}

/// `u8::from_str_radix` of a hex digit written twice, `0` where it fails.
pub open spec fn doubled_hex(c: char) -> nat {
    match hex_val(c) {
        Some(v) => 17 * v,
        None => 0,
    }
}

/// The pieces that `str::parse::<u8>` accepts once trimmed, as numbers.
pub open spec fn byte_values(ps: Seq<Seq<char>>) -> Seq<nat>
    decreases ps.len(),
{
    if ps.len() == 0 {
        Seq::empty()
    } else {
        let rest = byte_values(ps.drop_last());
        match parse_u8(trim(ps.last())) {
            Some(v) => rest.push(v as nat),
            None => rest,
        }
    }
}

/// `css_color_to_hex`: `#rgb` widened to `#rrggbb`, other `#` codes kept,
/// `rgb(...)` written in hex, anything else black; a three-byte code with a
/// multi-byte character is where slicing by bytes would fail.
pub open spec fn hex_color(color: Seq<char>) -> Result<Seq<char>, SHalt> {
    let c = trim(color);
    if starts_with(c, "#"@) {
        let hex = strip_prefixes(c, "#"@);
        if utf8_len(hex) == 3 {
            if !is_ascii(hex) {
                Err(SHalt::CharBoundary)
            } else {
                Ok(
                    "#"@ + hex2(doubled_hex(hex[0])) + hex2(doubled_hex(hex[1])) + hex2(
                        doubled_hex(hex[2]),
                    ),
                )
            }
        } else {
            Ok("#"@ + hex)
        }
    } else if starts_with(c, "rgb"@) {
        let nums = byte_values(split_char(keep_number_chars(c, false), ','));
        if nums.len() >= 3 {
            Ok("#"@ + hex2(nums[0]) + hex2(nums[1]) + hex2(nums[2]))
        } else {
            Ok("#000000"@)
        }
    } else {
        Ok("#000000"@)
    }
}

/// `collect_rich_text` of one node: text as it is, `b`, `i`, `u` as rich-text
/// tags, a `span` with a color in its style as a `font` tag.
pub open spec fn rich_node(n: SHtml) -> Result<Seq<char>, SHalt>
    decreases n,
{
    match n.kind {
        SKind::Text(t) => Ok(t),
        SKind::Element(tag, attrs) => match rich_kids(n.kids) {
            Ok(inner) => if eq_ic(tag, "b"@) {
                Ok("<b>"@ + inner + "</b>"@)
            } else if eq_ic(tag, "i"@) {
                Ok("<i>"@ + inner + "</i>"@)
            } else if eq_ic(tag, "u"@) {
                Ok("<u>"@ + inner + "</u>"@)
            } else if eq_ic(tag, "span"@) {
                match attr(attrs, "style"@) {
                    Some(st) => match style_color(inline_style(st)) {
                        Some(c) => match hex_color(c) {
                            Ok(h) => Ok("<font color=\""@ + h + "\">"@ + inner + "</font>"@),
                            Err(e) => Err(e),
                        },
                        None => Ok(inner),
                    },
                    None => Ok(inner),
                }
            } else {
                Ok(inner)
            },
            Err(e) => Err(e),
        },
        SKind::Other => Ok(Seq::empty()),
    }
}

/// `collect_rich_text`: the rich text of the children, in order.
pub open spec fn rich_kids(ks: Seq<SHtml>) -> Result<Seq<char>, SHalt>
    decreases ks,
{
    if ks.len() == 0 {
        Ok(Seq::empty())
    } else {
        match rich_kids(ks.drop_last()) {
            Ok(a) => match rich_node(ks.last()) {
                Ok(b) => Ok(a + b),
                Err(e) => Err(e),
            },
            Err(e) => Err(e),
        }
    }
}

pub open spec fn put_opt(m: SProps, k: Seq<char>, v: Option<Seq<char>>) -> SProps {
    match v {
        Some(x) => pinsert(m, k, x),
        None => m,
    }
}

/// The inline style, then `class` and `id`.
pub open spec fn base_props(attrs: SAttrs) -> SProps {
    let p0 = match attr(attrs, "style"@) {
        Some(st) => put_all(Seq::empty(), inline_style(st)),
        None => Seq::empty(),
    };
    put_opt(put_opt(p0, "class"@, attr(attrs, "class"@)), "id"@, attr(attrs, "id"@))
}

/// Non-empty rich text as `Text`, with `RichText` on.
pub open spec fn text_props(m: SProps, rich: Seq<char>) -> SProps {
    if rich.len() > 0 {
        pinsert(pinsert(m, "Text"@, rich), "RichText"@, "true"@)
    } else {
        m
    }
}

/// Image source, click handler, transitions and animations, and the
/// text-box settings of `textarea` and `input`.
pub open spec fn tag_props(tag: Seq<char>, attrs: SAttrs, m: SProps) -> SProps {
    let p1 = if eq_ic(tag, "img"@) || eq_ic(tag, "imagebutton"@) || eq_ic(tag, "imgbutton"@) {
        put_opt(m, "Image"@, attr(attrs, "src"@))
    } else {
        m
    };
    let p2 = if eq_ic(tag, "button"@) || eq_ic(tag, "a"@) || eq_ic(tag, "imagebutton"@) {
        put_opt(p1, "data-onclick"@, attr(attrs, "data-onclick"@))
    } else {
        p1
    };
    let p3 = put_opt(p2, "data-transition"@, attr(attrs, "data-transition"@));
    let p4 = put_opt(p3, "data-animate"@, attr(attrs, "data-animate"@));
    let p5 = put_opt(p4, "data-animate-on"@, attr(attrs, "data-animate-on"@));
    let p6 = if eq_ic(tag, "textarea"@) {
        pinsert(p5, "MultiLine"@, "true"@)
    } else {
        p5
    };
    if eq_ic(tag, "input"@) {
        let q = match attr(attrs, "type"@) {
            Some(t) => if eq_ic(t, "password"@) {
                pinsert(p6, "ClearTextOnFocus"@, "false"@)
            } else {
                p6
            },
            None => p6,
        };
        put_opt(q, "PlaceholderText"@, attr(attrs, "placeholder"@))
    } else {
        p6
    }
}

/// Children that are not walked: text, and formatting tags inside a text container.
pub open spec fn skipped(parent_tag: Seq<char>, k: SHtml) -> bool {
    match k.kind {
        SKind::Element(t, _) => text_container(parent_tag) && inline_formatting(t),
        SKind::Text(_) => true,
        SKind::Other => false,
    }
}

/// `traverse`: an element becomes a UI node, numbered by the counter `c`
/// (which counts elements in tree order); anything else becomes nothing.
/// Returns the node and the counter after its subtree.
pub open spec fn trav(n: SHtml, c: int) -> Result<(Option<SNode>, int), SHalt>
    decreases n,
{
    match n.kind {
        SKind::Element(tag, attrs) => if c + 1 > u32::MAX {
            Err(SHalt::Overflow)
        } else {
            let id = c + 1;
            let it = instance_type(tag, attr(attrs, "type"@));
            let name = match attr(attrs, "id"@) {
                Some(v) => v,
                None => tag + "_"@ + dec(id as nat),
            };
            let p = base_props(attrs);
            let pr = if text_container(tag) {
                match rich_kids(n.kids) {
                    Ok(r) => Ok(text_props(p, r)),
                    Err(e) => Err(e),
                }
            } else {
                Ok(p)
            };
            match pr {
                Ok(p2) => match trav_kids(tag, n.kids, id) {
                    Ok(res) => Ok(
                        (
                            Some(
                                SNode {
                                    itype: it,
                                    name,
                                    props: tag_props(tag, attrs, p2),
                                    children: res.0,
                                    helpers: Seq::empty(),
                                    source_tag: None,
                                },
                            ),
                            res.1,
                        ),
                    ),
                    Err(e) => Err(e),
                },
                Err(e) => Err(e),
            }
        },
        _ => Ok((None, c)),
    }
}

/// The UI nodes of the walked children, in order, and the counter after them.
pub open spec fn trav_kids(parent_tag: Seq<char>, ks: Seq<SHtml>, c: int) -> Result<(Seq<SNode>, int), SHalt>
    decreases ks,
{
    if ks.len() == 0 {
        Ok((Seq::empty(), c))
    } else {
        match trav_kids(parent_tag, ks.drop_last(), c) {
            Ok(acc) => if skipped(parent_tag, ks.last()) {
                Ok(acc)
            } else {
                match trav(ks.last(), acc.1) {
                    Ok(one) => match one.0 {
                        Some(s) => Ok((acc.0.push(s), one.1)),
                        None => Ok((acc.0, one.1)),
                    },
                    Err(e) => Err(e),
                }
            },
            Err(e) => Err(e),
        }
    }
}

/// `parse`: the UI tree of the document walk `evs`, or `None` without elements.
pub open spec fn parse_events_spec(evs: Seq<SEvent>) -> Result<Option<SNode>, SHalt> {
    match root_of(document(evs)) {
        Some(r) => match trav(r, 0) {
            Ok(res) => Ok(res.0),
            Err(e) => Err(e),
        },
        None => Ok(None),
    }
}

/// The view of an optional character vector.
pub open spec fn ov(o: Option<Vec<char>>) -> Option<Seq<char>> {
    match o {
        Some(v) => Some(v@),
        None => None,
    }
}

/// The view of an optional UI node.
pub open spec fn onview(o: Option<LuauNode>) -> Option<SNode> {
    match o {
        Some(n) => Some(n@),
        None => None,
    }
}

/// The value of the attribute named `key` in no namespace.
fn attr_v(a: &Vec<HtmlAttr>, key: &str) -> (r: Option<Vec<char>>)
    ensures
        ov(r) == attr(attrs_view(a@), key@),
{
    let ghost av = attrs_view(a@);
    let k = chars_of(key);
    let mut i: usize = 0;
    assert(av.skip(0) =~= av);
    while i < a.len()
        invariant
            i <= a.len(),
            av == attrs_view(a@),
            k@ == key@,
            attr(av, key@) == attr(av.skip(i as int), key@),
        decreases a.len() - i,
    {
        let ghost rest = av.skip(i as int);
        assert(rest[0] == a@[i as int]@);
        assert(rest.drop_first() =~= av.skip(i + 1));
        let name = chars_of(a[i].name.as_str());
        if a[i].ns.as_str().unicode_len() == 0 && same(&name, &k) {
            return Some(chars_of(a[i].value.as_str()));
        }
        i = i + 1;
    }
    assert(av.skip(i as int).len() == 0);
    None
}

/// `instance_type_from_tag`.
pub fn instance_type_from_tag(tag: &Vec<char>, input_type: &Option<Vec<char>>) -> (r: Vec<char>)
    ensures
        r@ == instance_type(tag@, ov(*input_type)),
{
    let t = to_lowercase(tag);
    let name = if same_str(&t, "screengui") || same_str(&t, "gui") {
        "ScreenGui"
    } else if same_str(&t, "billboard") || same_str(&t, "billboardgui") {
        "BillboardGui"
    } else if same_str(&t, "surface") || same_str(&t, "surfacegui") {
        "SurfaceGui"
    } else if same_str(&t, "div") || same_str(&t, "section") || same_str(&t, "main") || same_str(
        &t,
        "header",
    ) || same_str(&t, "footer") || same_str(&t, "article") || same_str(&t, "nav") || same_str(
        &t,
        "aside",
    ) {
        "Frame"
    } else if same_str(&t, "p") || same_str(&t, "span") || same_str(&t, "h1") || same_str(&t, "h2")
        || same_str(&t, "h3") || same_str(&t, "h4") || same_str(&t, "h5") || same_str(&t, "h6")
        || same_str(&t, "label") || same_str(&t, "figcaption") || same_str(&t, "caption") {
        "TextLabel"
    } else if same_str(&t, "button") || same_str(&t, "a") {
        "TextButton"
    } else if same_str(&t, "img") || same_str(&t, "picture") {
        "ImageLabel"
    } else if same_str(&t, "input") {
        match input_type {
            Some(s) => if eq_ic_str(s, "checkbox") || eq_ic_str(s, "radio") {
                "TextButton"
            } else {
                "TextBox"
            },
            None => "TextBox",
        }
    } else if same_str(&t, "scroll") || same_str(&t, "scrollview") {
        "ScrollingFrame"
    } else if same_str(&t, "textarea") {
        "TextBox"
    } else if same_str(&t, "canvas") {
        "CanvasGroup"
    } else if same_str(&t, "viewport") {
        "ViewportFrame"
    } else if same_str(&t, "video") {
        "VideoFrame"
    } else if same_str(&t, "imagebutton") || same_str(&t, "imgbutton") {
        "ImageButton"
    } else {
        "Frame"
    };
    chars_of(name)
}

/// `is_text_container`.
pub fn is_text_container(tag: &Vec<char>) -> (r: bool)
    ensures
        r == text_container(tag@),
{
    let t = to_lowercase(tag);
    same_str(&t, "p") || same_str(&t, "span") || same_str(&t, "h1") || same_str(&t, "h2")
        || same_str(&t, "h3") || same_str(&t, "h4") || same_str(&t, "h5") || same_str(&t, "h6")
        || same_str(&t, "label") || same_str(&t, "button") || same_str(&t, "a")
}

/// `is_inline_formatting`.
pub fn is_inline_formatting(tag: &Vec<char>) -> (r: bool)
    ensures
        r == inline_formatting(tag@),
{
    let t = to_lowercase(tag);
    same_str(&t, "b") || same_str(&t, "i") || same_str(&t, "u") || same_str(&t, "span")
}

fn style_entry_v(acc: &mut PropMap, part: &Vec<char>)
    ensures
        final(acc)@ == style_entry(old(acc)@, part@),
{
    let p = trim_v(part);
    let colon: Vec<char> = vec![':'];
    assert(colon@ == seq![':']);
    proof {
        crate::text::lemma_find_from(p@, seq![':'], 0);
    }
    match crate::text::find_v(&p, &colon, 0) {
        Some(i) => {
            let key = trim_v(&slice_of(&p, 0, i));
            let val = trim_v(&slice_of(&p, i + 1, p.len()));
            assert(p@.subrange(0, i as int) == p@.take(i as int));
            assert(p@.subrange(i + 1, p@.len() as int) == p@.skip(i + 1));
            acc.insert_v(&key, &val);
        },
        None => {},
    }
}

/// `parse_inline_style`.
pub fn parse_inline_style(style: &Vec<char>) -> (r: PropMap)
    ensures
        r@ == inline_style(style@),
{
    let parts = split_char_v(style, ';');
    let mut m = PropMap::new();
    let mut i: usize = 0;
    while i < parts.len()
        invariant
            i <= parts.len(),
            m@ == style_from(Seq::empty(), views(parts@).take(i as int)),
        decreases parts.len() - i,
    {
        proof {
            assert(views(parts@).take(i + 1).drop_last() =~= views(parts@).take(i as int));
            assert(views(parts@).take(i + 1).last() == parts@[i as int]@);
        }
        style_entry_v(&mut m, &parts[i]);
        i = i + 1;
    }
    assert(views(parts@).take(parts.len() as int) =~= views(parts@));
    m
}

/// `color_from_style`.
pub fn color_from_style(m: &PropMap) -> (r: Option<Vec<char>>)
    ensures
        r matches Some(v) ==> style_color(m@) == Some(v@),
        r is None ==> style_color(m@) is None,
{
    match m.get("color") {
        Some(c) => Some(c),
        None => m.get("background-color"),
    }
}

fn doubled_hex_v(c: char) -> (r: u8)
    ensures
        r == doubled_hex(c),
{
    match hex_val_v(c) {
        Some(v) => 17 * v,
        None => 0,
    }
}

fn byte_values_v(ps: &Vec<Vec<char>>) -> (r: Vec<u8>)
    ensures
        r@.map_values(|b: u8| b as nat) == byte_values(views(ps@)),
{
    let mut out: Vec<u8> = Vec::new();
    let mut i: usize = 0;
    while i < ps.len()
        invariant
            i <= ps.len(),
            out@.map_values(|b: u8| b as nat) == byte_values(views(ps@).take(i as int)),
        decreases ps.len() - i,
    {
        proof {
            assert(views(ps@).take(i + 1).drop_last() =~= views(ps@).take(i as int));
            assert(views(ps@).take(i + 1).last() == ps@[i as int]@);
        }
        let t = trim_v(&ps[i]);
        match parse_u8_v(&t) {
            Some(v) => {
                let ghost before = out@;
                out.push(v);
                assert(out@.map_values(|b: u8| b as nat) =~= before.map_values(|b: u8| b as nat).push(
                    v as nat,
                ));
            },
            None => {},
        }
        i = i + 1;
    }
    assert(views(ps@).take(ps.len() as int) =~= views(ps@));
    out
}

/// `css_color_to_hex`.
pub fn css_color_to_hex(color: &Vec<char>) -> (r: Result<Vec<char>, Halt>)
    ensures
        r matches Err(h) ==> !(h@ is Need),
        resv(r) == hex_color(color@),
{
    let c = trim_v(color);
    if starts_with_str(&c, "#") {
        let hex = strip_prefixes_str(&c, "#");
        if three_bytes(&hex) {
            if !ascii_only(&hex) {
                return Err(Halt::CharBoundary);
            }
            proof {
                lemma_utf8_ascii(hex@);
            }
            let mut o = chars_of("#");
            let ghost o0 = o@;
            push_hex2(&mut o, doubled_hex_v(hex[0]));
            push_hex2(&mut o, doubled_hex_v(hex[1]));
            push_hex2(&mut o, doubled_hex_v(hex[2]));
            assert(o@ =~= o0 + hex2(doubled_hex(hex@[0])) + hex2(doubled_hex(hex@[1])) + hex2(
                doubled_hex(hex@[2]),
            ));
            Ok(o)
        } else {
            let mut o = chars_of("#");
            push_all(&mut o, &hex);
            Ok(o)
        }
    } else if starts_with_str(&c, "rgb") {
        let kept = keep_number_chars_v(&c, false);
        let pieces = split_char_v(&kept, ',');
        let nums = byte_values_v(&pieces);
        if nums.len() >= 3 {
            let ghost nv = nums@.map_values(|b: u8| b as nat);
            assert(nv[0] == nums@[0] as nat && nv[1] == nums@[1] as nat && nv[2] == nums@[2] as nat);
            let mut o = chars_of("#");
            let ghost o0 = o@;
            push_hex2(&mut o, nums[0]);
            push_hex2(&mut o, nums[1]);
            push_hex2(&mut o, nums[2]);
            assert(o@ =~= o0 + hex2(nv[0]) + hex2(nv[1]) + hex2(nv[2]));
            Ok(o)
        } else {
            Ok(chars_of("#000000"))
        }
    } else {
        Ok(chars_of("#000000"))
    }
}

/// Once the children up to `j` fail, all of them fail the same way.
proof fn lemma_rich_err(ks: Seq<SHtml>, j: int)
    requires
        0 <= j <= ks.len(),
        rich_kids(ks.take(j)) is Err,
    ensures
        rich_kids(ks) == rich_kids(ks.take(j)),
    decreases ks.len() - j,
{
    if j < ks.len() {
        assert(ks.take(j + 1).drop_last() =~= ks.take(j));
        lemma_rich_err(ks, j + 1);
    } else {
        assert(ks.take(j) =~= ks);
    }
}

proof fn lemma_trav_err(tag: Seq<char>, ks: Seq<SHtml>, j: int, c: int)
    requires
        0 <= j <= ks.len(),
        trav_kids(tag, ks.take(j), c) is Err,
    ensures
        trav_kids(tag, ks, c) == trav_kids(tag, ks.take(j), c),
    decreases ks.len() - j,
{
    if j < ks.len() {
        assert(ks.take(j + 1).drop_last() =~= ks.take(j));
        lemma_trav_err(tag, ks, j + 1, c);
    } else {
        assert(ks.take(j) =~= ks);
    }
}

/// `collect_rich_text`: the rich text of the node's children.
pub fn collect_rich_text(n: &HtmlNode) -> (r: Result<Vec<char>, Halt>)
    ensures
        r matches Err(h) ==> !(h@ is Need),
        resv(r) == rich_kids(n@.kids),
    decreases n@,
{
    let ghost ks = hviews(n.children@);
    proof {
        lemma_hviews(n.children@);
    }
    let mut out: Vec<char> = Vec::new();
    let mut i: usize = 0;
    assert(ks.take(0) =~= Seq::<SHtml>::empty());
    while i < n.children.len()
        invariant
            i <= n.children.len(),
            ks == hviews(n.children@),
            ks.len() == n.children@.len(),
            forall|j: int| 0 <= j < ks.len() ==> #[trigger] ks[j] == hview(n.children@[j]),
            rich_kids(ks.take(i as int)) == Ok::<Seq<char>, SHalt>(out@),
        decreases n.children.len() - i,
    {
        let child = &n.children[i];
        proof {
            assert(ks[i as int] == hview(*child));
            assert(ks.take(i + 1).drop_last() =~= ks.take(i as int));
            assert(ks.take(i + 1).last() == ks[i as int]);
        }
        let ghost before = out@;
        match &child.kind {
            HtmlKind::Text(t) => {
                push_str(&mut out, t.as_str());
            },
            HtmlKind::Element(tag_s, attrs) => {
                let inner = match collect_rich_text(child) {
                    Ok(v) => v,
                    Err(h) => {
                        proof {
                            lemma_rich_err(ks, i + 1);
                        }
                        return Err(h);
                    },
                };
                let tag = chars_of(tag_s.as_str());
                if eq_ic_str(&tag, "b") {
                    push_str(&mut out, "<b>");
                    push_all(&mut out, &inner);
                    push_str(&mut out, "</b>");
                } else if eq_ic_str(&tag, "i") {
                    push_str(&mut out, "<i>");
                    push_all(&mut out, &inner);
                    push_str(&mut out, "</i>");
                } else if eq_ic_str(&tag, "u") {
                    push_str(&mut out, "<u>");
                    push_all(&mut out, &inner);
                    push_str(&mut out, "</u>");
                } else if eq_ic_str(&tag, "span") {
                    match attr_v(attrs, "style") {
                        Some(st) => {
                            let m = parse_inline_style(&st);
                            match color_from_style(&m) {
                                Some(c) => {
                                    let h = match css_color_to_hex(&c) {
                                        Ok(v) => v,
                                        Err(e) => {
                                            proof {
                                                lemma_rich_err(ks, i + 1);
                                            }
                                            return Err(e);
                                        },
                                    };
                                    push_str(&mut out, "<font color=\"");
                                    push_all(&mut out, &h);
                                    push_str(&mut out, "\">");
                                    push_all(&mut out, &inner);
                                    push_str(&mut out, "</font>");
                                },
                                None => {
                                    push_all(&mut out, &inner);
                                },
                            }
                        },
                        None => {
                            push_all(&mut out, &inner);
                        },
                    }
                } else {
                    push_all(&mut out, &inner);
                }
            },
            HtmlKind::Other => {},
        }
        proof {
            assert(rich_node(ks[i as int]) matches Ok(b) && out@ =~= before + b);
        }
        i = i + 1;
    }
    assert(ks.take(n.children.len() as int) =~= ks);
    Ok(out)
}

fn put_opt_v(m: &mut PropMap, k: &str, v: &Option<Vec<char>>)
    ensures
        final(m)@ == put_opt(old(m)@, k@, ov(*v)),
{
    match v {
        Some(x) => {
            let kv = chars_of(k);
            m.insert_v(&kv, x);
        },
        None => {},
    }
}

fn base_props_v(attrs: &Vec<HtmlAttr>) -> (r: PropMap)
    ensures
        r@ == base_props(attrs_view(attrs@)),
{
    let mut m = PropMap::new();
    match attr_v(attrs, "style") {
        Some(st) => {
            let sm = parse_inline_style(&st);
            put_all_v(&mut m, &sm);
        },
        None => {},
    }
    put_opt_v(&mut m, "class", &attr_v(attrs, "class"));
    put_opt_v(&mut m, "id", &attr_v(attrs, "id"));
    m
}

fn text_props_v(m: &mut PropMap, rich: &Vec<char>)
    ensures
        final(m)@ == text_props(old(m)@, rich@),
{
    if rich.len() > 0 {
        let t = chars_of("Text");
        m.insert_v(&t, rich);
        m.insert("RichText", "true");
    }
}

fn tag_props_v(m: &mut PropMap, tag: &Vec<char>, attrs: &Vec<HtmlAttr>)
    ensures
        final(m)@ == tag_props(tag@, attrs_view(attrs@), old(m)@),
{
    if eq_ic_str(tag, "img") || eq_ic_str(tag, "imagebutton") || eq_ic_str(tag, "imgbutton") {
        put_opt_v(m, "Image", &attr_v(attrs, "src"));
    }
    if eq_ic_str(tag, "button") || eq_ic_str(tag, "a") || eq_ic_str(tag, "imagebutton") {
        put_opt_v(m, "data-onclick", &attr_v(attrs, "data-onclick"));
    }
    put_opt_v(m, "data-transition", &attr_v(attrs, "data-transition"));
    put_opt_v(m, "data-animate", &attr_v(attrs, "data-animate"));
    put_opt_v(m, "data-animate-on", &attr_v(attrs, "data-animate-on"));
    if eq_ic_str(tag, "textarea") {
        m.insert("MultiLine", "true");
    }
    if eq_ic_str(tag, "input") {
        match attr_v(attrs, "type") {
            Some(t) => {
                if eq_ic_str(&t, "password") {
                    m.insert("ClearTextOnFocus", "false");
                }
            },
            None => {},
        }
        put_opt_v(m, "PlaceholderText", &attr_v(attrs, "placeholder"));
    }
}

fn skipped_v(parent_tag: &Vec<char>, k: &HtmlNode) -> (r: bool)
    ensures
        r == skipped(parent_tag@, k@),
{
    match &k.kind {
        HtmlKind::Element(t, _) => {
            let tv = chars_of(t.as_str());
            is_text_container(parent_tag) && is_inline_formatting(&tv)
        },
        HtmlKind::Text(_) => true,
        HtmlKind::Other => false,
    }
}

/// `traverse`: the UI node of an element, numbered by the counter `c`, and
/// the counter after its subtree.
pub fn traverse(n: &HtmlNode, c: u32) -> (r: Result<(Option<LuauNode>, u32), Halt>)
    ensures
        r matches Err(h) ==> !(h@ is Need),
        match trav(n@, c as int) {
            Ok(res) => r matches Ok(x) && onview(x.0) == res.0 && x.1 == res.1,
            Err(e) => r matches Err(h) && h@ == e,
        },
    decreases n@,
{
    match &n.kind {
        HtmlKind::Element(tag_s, attrs) => {
            if c == u32::MAX {
                return Err(Halt::Overflow);
            }
            let id: u32 = c + 1;
            let tag = chars_of(tag_s.as_str());
            let it = instance_type_from_tag(&tag, &attr_v(attrs, "type"));
            let name = match attr_v(attrs, "id") {
                Some(v) => v,
                None => {
                    let mut nm = copy(&tag);
                    push_str(&mut nm, "_");
                    push_dec(&mut nm, id as u64);
                    nm
                },
            };
            let mut luau = LuauNode::new_v(&it, &name);
            luau.properties = base_props_v(attrs);
            if is_text_container(&tag) {
                let rich = collect_rich_text(n)?;
                text_props_v(&mut luau.properties, &rich);
            }
            tag_props_v(&mut luau.properties, &tag, attrs);
            let ghost ks = hviews(n.children@);
            proof {
                lemma_hviews(n.children@);
                assert(ks.take(0) =~= Seq::<SHtml>::empty());
                assert(nviews(luau.children@) =~= Seq::<SNode>::empty());
            }
            let ghost props = luau@.props;
            let mut cur: u32 = id;
            let mut i: usize = 0;
            while i < n.children.len()
                invariant
                    i <= n.children.len(),
                    ks == hviews(n.children@),
                    ks.len() == n.children@.len(),
                    forall|j: int| 0 <= j < ks.len() ==> #[trigger] ks[j] == hview(n.children@[j]),
                    n@.kind == SKind::Element(tag@, attrs_view(attrs@)),
                    text_container(tag@) ==> rich_kids(n@.kids) is Ok,
                    id == c + 1,
                    trav_kids(tag@, ks.take(i as int), id as int) == Ok::<(Seq<SNode>, int), SHalt>(
                        (luau@.children, cur as int),
                    ),
                    luau@ == (SNode {
                        itype: it@,
                        name: name@,
                        props,
                        children: luau@.children,
                        helpers: Seq::empty(),
                        source_tag: None,
                    }),
                decreases n.children.len() - i,
            {
                let child = &n.children[i];
                proof {
                    assert(ks[i as int] == hview(*child));
                    assert(ks.take(i + 1).drop_last() =~= ks.take(i as int));
                    assert(ks.take(i + 1).last() == ks[i as int]);
                }
                if !skipped_v(&tag, child) {
                    let (o, c2) = match traverse(child, cur) {
                        Ok(x) => x,
                        Err(h) => {
                            proof {
                                assert(ks.take(i + 1).last() == hview(*child));
                                lemma_trav_err(tag@, ks, i + 1, id as int);
                            }
                            return Err(h);
                        },
                    };
                    match o {
                        Some(s) => {
                            luau.add_child(s);
                        },
                        None => {},
                    }
                    cur = c2;
                }
                i = i + 1;
            }
            assert(ks.take(n.children.len() as int) =~= ks);
            Ok((Some(luau), cur))
        },
        _ => Ok((None, c)),
    }
}

pub open spec fn name_view(name: Option<&str>) -> Option<Seq<char>> {
    match name {
        Some(s) => Some(s@),
        None => None,
    }
}

fn first_element_v<'a>(ns: &'a Vec<HtmlNode>, name: Option<&str>) -> (r: Option<&'a HtmlNode>)
    ensures
        match r {
            Some(x) => first_element(hviews(ns@), name_view(name)) == Some(x@),
            None => first_element(hviews(ns@), name_view(name)) is None,
        },
    decreases hviews(ns@),
{
    let ghost ks = hviews(ns@);
    let ghost nm = name_view(name);
    proof {
        lemma_hviews(ns@);
        assert(ks.skip(0) =~= ks);
    }
    let mut i: usize = 0;
    while i < ns.len()
        invariant
            i <= ns.len(),
            ks == hviews(ns@),
            nm == name_view(name),
            ks.len() == ns@.len(),
            forall|j: int| 0 <= j < ks.len() ==> #[trigger] ks[j] == hview(ns@[j]),
            first_element(ks, nm) == first_element(ks.skip(i as int), nm),
        decreases ns.len() - i,
    {
        let n = &ns[i];
        proof {
            let rest = ks.skip(i as int);
            assert(rest[0] == hview(*n));
            assert(rest.drop_first() =~= ks.skip(i + 1));
        }
        let hit = match &n.kind {
            HtmlKind::Element(t, _) => match name {
                None => true,
                Some(want) => {
                    let tv = chars_of(t.as_str());
                    same_str(&tv, want)
                },
            },
            _ => false,
        };
        if hit {
            return Some(n);
        }
        match first_element_v(&n.children, name) {
            Some(x) => {
                return Some(x);
            },
            None => {},
        }
        i = i + 1;
    }
    None
}

fn root_v(doc: &Vec<HtmlNode>) -> (r: Option<&HtmlNode>)
    ensures
        match r {
            Some(x) => root_of(hviews(doc@)) == Some(x@),
            None => root_of(hviews(doc@)) is None,
        },
{
    match first_element_v(doc, Some("body")) {
        Some(x) => Some(x),
        None => match first_element_v(doc, Some("html")) {
            Some(x) => Some(x),
            None => match first_element_v(doc, Some("div")) {
                Some(x) => Some(x),
                None => first_element_v(doc, None),
            },
        },
    }
}

/// The UI tree of a document walk: the root element (the first `body`,
/// `html` or `div`, else the first element) traversed with the counter at
/// zero; `None` for a walk without elements.
pub fn parse_events(evs: &Vec<HtmlEvent>) -> (r: Result<Option<LuauNode>, Halt>)
    ensures
        r matches Err(h) ==> !(h@ is Need),
        match parse_events_spec(events_view(evs@)) {
            Ok(o) => r matches Ok(x) && onview(x) == o,
            Err(e) => r matches Err(h) && h@ == e,
        },
{
    let doc = document_v(evs);
    match root_v(&doc) {
        Some(rn) => {
            let (o, _) = traverse(rn, 0)?;
            Ok(o)
        },
        None => Ok(None),
    }
}

/// `parse`: the UI tree of an HTML document.
pub fn parse(html: &str) -> (r: Result<Option<LuauNode>, Halt>)
    ensures
        r matches Err(h) ==> !(h@ is Need),
        match parse_events_spec(html_events(html@)) {
            Ok(o) => r matches Ok(x) && onview(x) == o,
            Err(e) => r matches Err(h) && h@ == e,
        },
{
    let evs = document_events(html);
    parse_events(&evs)
}

/// The lengths (and, where two have the same length, the first letters) of
/// the tag names that `instance_type` tells apart.
proof fn lemma_tag_literals()
    ensures
        "screengui"@.len() == 9,
        "gui"@.len() == 3,
        "billboard"@.len() == 9,
        "billboardgui"@.len() == 12,
        "surface"@.len() == 7,
        "surfacegui"@.len() == 10,
        "div"@.len() == 3,
        "section"@.len() == 7,
        "main"@.len() == 4,
        "header"@.len() == 6,
        "footer"@.len() == 6,
        "article"@.len() == 7,
        "nav"@.len() == 3,
        "aside"@.len() == 5,
        "p"@.len() == 1,
        "span"@.len() == 4,
        "h1"@.len() == 2,
        "h2"@.len() == 2,
        "h3"@.len() == 2,
        "h4"@.len() == 2,
        "h5"@.len() == 2,
        "h6"@.len() == 2,
        "label"@.len() == 5,
        "figcaption"@.len() == 10,
        "caption"@.len() == 7,
        "button"@.len() == 6,
        "a"@.len() == 1,
        "span"@[0] == 's',
        "main"@[0] == 'm',
        "label"@[0] == 'l',
        "aside"@[0] == 'a',
        "button"@[0] == 'b',
        "header"@[0] == 'h',
        "footer"@[0] == 'f',
        "a"@[0] == 'a',
        "p"@[0] == 'p',
{
    reveal_strlit("screengui");
    reveal_strlit("gui");
    reveal_strlit("billboard");
    reveal_strlit("billboardgui");
    reveal_strlit("surface");
    reveal_strlit("surfacegui");
    reveal_strlit("div");
    reveal_strlit("section");
    reveal_strlit("main");
    reveal_strlit("header");
    reveal_strlit("footer");
    reveal_strlit("article");
    reveal_strlit("nav");
    reveal_strlit("aside");
    reveal_strlit("p");
    reveal_strlit("span");
    reveal_strlit("h1");
    reveal_strlit("h2");
    reveal_strlit("h3");
    reveal_strlit("h4");
    reveal_strlit("h5");
    reveal_strlit("h6");
    reveal_strlit("label");
    reveal_strlit("figcaption");
    reveal_strlit("caption");
    reveal_strlit("button");
    reveal_strlit("a");
}

/// A tag whose text becomes the node's `Text` is made a `TextLabel` or a
/// `TextButton`, whatever its attributes.
pub proof fn law_text_containers_hold_text(tag: Seq<char>, input_type: Option<Seq<char>>)
    requires
        text_container(tag),
    ensures
        instance_type(tag, input_type) == "TextLabel"@ || instance_type(tag, input_type)
            == "TextButton"@,
{
    lemma_tag_literals();
}

proof fn lemma_sizes_push(s: Seq<SNode>, x: SNode)
    ensures
        sizes(s.push(x)) == sizes(s) + size(x),
    decreases s.len(),
{
    if s.len() == 0 {
        assert(s.push(x).drop_first() =~= s);
        assert(s.push(x)[0] == x);
    } else {
        lemma_sizes_push(s.drop_first(), x);
        assert(s.push(x).drop_first() =~= s.drop_first().push(x));
        assert(s.push(x)[0] == s[0]);
    }
}

proof fn lemma_trav_count(n: SHtml, c: int)
    ensures
        trav(n, c) matches Ok((o, c2)) ==> c2 == c + match o {
            Some(s) => size(s) as int,
            None => 0,
        },
    decreases n,
{
    if let SKind::Element(tag, attrs) = n.kind {
        lemma_trav_kids_count(tag, n.kids, c + 1);
    }
}

proof fn lemma_trav_kids_count(parent_tag: Seq<char>, ks: Seq<SHtml>, c: int)
    ensures
        trav_kids(parent_tag, ks, c) matches Ok((acc, c2)) ==> c2 == c + sizes(acc),
    decreases ks,
{
    if ks.len() > 0 {
        lemma_trav_kids_count(parent_tag, ks.drop_last(), c);
        if let Ok((acc, c1)) = trav_kids(parent_tag, ks.drop_last(), c) {
            if !skipped(parent_tag, ks.last()) {
                lemma_trav_count(ks.last(), c1);
                if let Ok((Some(s), c2)) = trav(ks.last(), c1) {
                    lemma_sizes_push(acc, s);
                }
            }
        }
    }
}

/// Each walked element becomes one UI node and takes one number: walking a
/// subtree advances the element counter by exactly the number of nodes it
/// gives.
pub proof fn law_one_number_per_node(n: SHtml, c: int)
    ensures
        trav(n, c) matches Ok((o, c2)) ==> c2 == c + match o {
            Some(s) => size(s) as int,
            None => 0,
        },
{
    lemma_trav_count(n, c);
}


proof fn lemma_rich_no_need(n: SHtml)
    ensures
        rich_node(n) matches Err(e) ==> !(e is Need),
    decreases n,
{
    if let SKind::Element(tag, attrs) = n.kind {
        lemma_rich_kids_no_need(n.kids);
    }
}

proof fn lemma_rich_kids_no_need(ks: Seq<SHtml>)
    ensures
        rich_kids(ks) matches Err(e) ==> !(e is Need),
    decreases ks,
{
    if ks.len() > 0 {
        lemma_rich_kids_no_need(ks.drop_last());
        lemma_rich_no_need(ks.last());
    }
}

proof fn lemma_trav_no_need(n: SHtml, c: int)
    ensures
        trav(n, c) matches Err(e) ==> !(e is Need),
    decreases n,
{
    if let SKind::Element(tag, attrs) = n.kind {
        lemma_rich_kids_no_need(n.kids);
        lemma_trav_kids_no_need(tag, n.kids, c + 1);
    }
}

proof fn lemma_trav_kids_no_need(parent_tag: Seq<char>, ks: Seq<SHtml>, c: int)
    ensures
        trav_kids(parent_tag, ks, c) matches Err(e) ==> !(e is Need),
    decreases ks,
{
    if ks.len() > 0 {
        lemma_trav_kids_no_need(parent_tag, ks.drop_last(), c);
        if let Ok((acc, c1)) = trav_kids(parent_tag, ks.drop_last(), c) {
            lemma_trav_no_need(ks.last(), c1);
        }
    }
}

/// Reading the document asks for no number: it stops only when its element
/// counter overflows or a color code would be cut inside a character.
pub proof fn law_document_asks_nothing(evs: Seq<SEvent>)
    ensures
        parse_events_spec(evs) matches Err(e) ==> !(e is Need),
{
    if let Some(r) = root_of(document(evs)) {
        lemma_trav_no_need(r, 0);
    }
}

/// The tag names HTML parsing knows are told apart by their length or by
/// one character.
proof fn lemma_html_tags_apart()
    ensures
        "a"@.len() == 1,
        "article"@.len() == 7,
        "aside"@.len() == 5,
        "billboard"@.len() == 9,
        "billboardgui"@.len() == 12,
        "button"@.len() == 6,
        "canvas"@.len() == 6,
        "caption"@.len() == 7,
        "div"@.len() == 3,
        "figcaption"@.len() == 10,
        "footer"@.len() == 6,
        "gui"@.len() == 3,
        "h1"@.len() == 2,
        "h2"@.len() == 2,
        "h3"@.len() == 2,
        "h4"@.len() == 2,
        "h5"@.len() == 2,
        "h6"@.len() == 2,
        "header"@.len() == 6,
        "imagebutton"@.len() == 11,
        "img"@.len() == 3,
        "imgbutton"@.len() == 9,
        "input"@.len() == 5,
        "label"@.len() == 5,
        "main"@.len() == 4,
        "nav"@.len() == 3,
        "p"@.len() == 1,
        "picture"@.len() == 7,
        "screengui"@.len() == 9,
        "scroll"@.len() == 6,
        "scrollview"@.len() == 10,
        "section"@.len() == 7,
        "span"@.len() == 4,
        "surface"@.len() == 7,
        "surfacegui"@.len() == 10,
        "textarea"@.len() == 8,
        "video"@.len() == 5,
        "viewport"@.len() == 8,
        "a"@ != "p"@,
        "h1"@ != "h2"@,
        "h1"@ != "h3"@,
        "h1"@ != "h4"@,
        "h1"@ != "h5"@,
        "h1"@ != "h6"@,
        "h2"@ != "h3"@,
        "h2"@ != "h4"@,
        "h2"@ != "h5"@,
        "h2"@ != "h6"@,
        "h3"@ != "h4"@,
        "h3"@ != "h5"@,
        "h3"@ != "h6"@,
        "h4"@ != "h5"@,
        "h4"@ != "h6"@,
        "h5"@ != "h6"@,
        "div"@ != "gui"@,
        "div"@ != "img"@,
        "div"@ != "nav"@,
        "gui"@ != "img"@,
        "gui"@ != "nav"@,
        "img"@ != "nav"@,
        "main"@ != "span"@,
        "aside"@ != "input"@,
        "aside"@ != "label"@,
        "aside"@ != "video"@,
        "input"@ != "label"@,
        "input"@ != "video"@,
        "label"@ != "video"@,
        "button"@ != "canvas"@,
        "button"@ != "footer"@,
        "button"@ != "header"@,
        "button"@ != "scroll"@,
        "canvas"@ != "footer"@,
        "canvas"@ != "header"@,
        "canvas"@ != "scroll"@,
        "footer"@ != "header"@,
        "footer"@ != "scroll"@,
        "header"@ != "scroll"@,
        "article"@ != "caption"@,
        "article"@ != "picture"@,
        "article"@ != "section"@,
        "article"@ != "surface"@,
        "caption"@ != "picture"@,
        "caption"@ != "section"@,
        "caption"@ != "surface"@,
        "picture"@ != "section"@,
        "picture"@ != "surface"@,
        "section"@ != "surface"@,
        "textarea"@ != "viewport"@,
        "billboard"@ != "imgbutton"@,
        "billboard"@ != "screengui"@,
        "imgbutton"@ != "screengui"@,
        "figcaption"@ != "scrollview"@,
        "figcaption"@ != "surfacegui"@,
        "scrollview"@ != "surfacegui"@,
{
    reveal_strlit("a");
    reveal_strlit("article");
    reveal_strlit("aside");
    reveal_strlit("billboard");
    reveal_strlit("billboardgui");
    reveal_strlit("button");
    reveal_strlit("canvas");
    reveal_strlit("caption");
    reveal_strlit("div");
    reveal_strlit("figcaption");
    reveal_strlit("footer");
    reveal_strlit("gui");
    reveal_strlit("h1");
    reveal_strlit("h2");
    reveal_strlit("h3");
    reveal_strlit("h4");
    reveal_strlit("h5");
    reveal_strlit("h6");
    reveal_strlit("header");
    reveal_strlit("imagebutton");
    reveal_strlit("img");
    reveal_strlit("imgbutton");
    reveal_strlit("input");
    reveal_strlit("label");
    reveal_strlit("main");
    reveal_strlit("nav");
    reveal_strlit("p");
    reveal_strlit("picture");
    reveal_strlit("screengui");
    reveal_strlit("scroll");
    reveal_strlit("scrollview");
    reveal_strlit("section");
    reveal_strlit("span");
    reveal_strlit("surface");
    reveal_strlit("surfacegui");
    reveal_strlit("textarea");
    reveal_strlit("video");
    reveal_strlit("viewport");
    assert("a"@[0] != "p"@[0]);
    assert("h1"@[1] != "h2"@[1]);
    assert("h1"@[1] != "h3"@[1]);
    assert("h1"@[1] != "h4"@[1]);
    assert("h1"@[1] != "h5"@[1]);
    assert("h1"@[1] != "h6"@[1]);
    assert("h2"@[1] != "h3"@[1]);
    assert("h2"@[1] != "h4"@[1]);
    assert("h2"@[1] != "h5"@[1]);
    assert("h2"@[1] != "h6"@[1]);
    assert("h3"@[1] != "h4"@[1]);
    assert("h3"@[1] != "h5"@[1]);
    assert("h3"@[1] != "h6"@[1]);
    assert("h4"@[1] != "h5"@[1]);
    assert("h4"@[1] != "h6"@[1]);
    assert("h5"@[1] != "h6"@[1]);
    assert("div"@[0] != "gui"@[0]);
    assert("div"@[0] != "img"@[0]);
    assert("div"@[0] != "nav"@[0]);
    assert("gui"@[0] != "img"@[0]);
    assert("gui"@[0] != "nav"@[0]);
    assert("img"@[0] != "nav"@[0]);
    assert("main"@[0] != "span"@[0]);
    assert("aside"@[0] != "input"@[0]);
    assert("aside"@[0] != "label"@[0]);
    assert("aside"@[0] != "video"@[0]);
    assert("input"@[0] != "label"@[0]);
    assert("input"@[0] != "video"@[0]);
    assert("label"@[0] != "video"@[0]);
    assert("button"@[0] != "canvas"@[0]);
    assert("button"@[0] != "footer"@[0]);
    assert("button"@[0] != "header"@[0]);
    assert("button"@[0] != "scroll"@[0]);
    assert("canvas"@[0] != "footer"@[0]);
    assert("canvas"@[0] != "header"@[0]);
    assert("canvas"@[0] != "scroll"@[0]);
    assert("footer"@[0] != "header"@[0]);
    assert("footer"@[0] != "scroll"@[0]);
    assert("header"@[0] != "scroll"@[0]);
    assert("article"@[0] != "caption"@[0]);
    assert("article"@[0] != "picture"@[0]);
    assert("article"@[0] != "section"@[0]);
    assert("article"@[0] != "surface"@[0]);
    assert("caption"@[0] != "picture"@[0]);
    assert("caption"@[0] != "section"@[0]);
    assert("caption"@[0] != "surface"@[0]);
    assert("picture"@[0] != "section"@[0]);
    assert("picture"@[0] != "surface"@[0]);
    assert("section"@[1] != "surface"@[1]);
    assert("textarea"@[0] != "viewport"@[0]);
    assert("billboard"@[0] != "imgbutton"@[0]);
    assert("billboard"@[0] != "screengui"@[0]);
    assert("imgbutton"@[0] != "screengui"@[0]);
    assert("figcaption"@[0] != "scrollview"@[0]);
    assert("figcaption"@[0] != "surfacegui"@[0]);
    assert("scrollview"@[1] != "surfacegui"@[1]);
}

/// The Roblox class each HTML tag (in any case) becomes: layout tags are
/// Frames, text tags TextLabels, `button` and `a` TextButtons, `img` and
/// `picture` ImageLabels, `input` a TextBox (a TextButton for the checkbox
/// and radio types), `textarea` a TextBox, and so on; any other tag is a
/// Frame.
pub proof fn law_tag_classes(tag: Seq<char>, ty: Option<Seq<char>>)
    ensures
        lower(tag) == "billboard"@ || lower(tag) == "billboardgui"@ ==> instance_type(tag, ty) == "BillboardGui"@,
        lower(tag) == "canvas"@ ==> instance_type(tag, ty) == "CanvasGroup"@,
        lower(tag) == "article"@ || lower(tag) == "aside"@ || lower(tag) == "div"@ || lower(tag) == "footer"@ || lower(tag) == "header"@ || lower(tag) == "main"@ || lower(tag) == "nav"@ || lower(tag) == "section"@ ==> instance_type(tag, ty) == "Frame"@,
        lower(tag) == "imagebutton"@ || lower(tag) == "imgbutton"@ ==> instance_type(tag, ty) == "ImageButton"@,
        lower(tag) == "img"@ || lower(tag) == "picture"@ ==> instance_type(tag, ty) == "ImageLabel"@,
        lower(tag) == "gui"@ || lower(tag) == "screengui"@ ==> instance_type(tag, ty) == "ScreenGui"@,
        lower(tag) == "scroll"@ || lower(tag) == "scrollview"@ ==> instance_type(tag, ty) == "ScrollingFrame"@,
        lower(tag) == "surface"@ || lower(tag) == "surfacegui"@ ==> instance_type(tag, ty) == "SurfaceGui"@,
        lower(tag) == "textarea"@ ==> instance_type(tag, ty) == "TextBox"@,
        lower(tag) == "a"@ || lower(tag) == "button"@ ==> instance_type(tag, ty) == "TextButton"@,
        lower(tag) == "caption"@ || lower(tag) == "figcaption"@ || lower(tag) == "h1"@ || lower(tag) == "h2"@ || lower(tag) == "h3"@ || lower(tag) == "h4"@ || lower(tag) == "h5"@ || lower(tag) == "h6"@ || lower(tag) == "label"@ || lower(tag) == "p"@ || lower(tag) == "span"@ ==> instance_type(tag, ty) == "TextLabel"@,
        lower(tag) == "video"@ ==> instance_type(tag, ty) == "VideoFrame"@,
        lower(tag) == "viewport"@ ==> instance_type(tag, ty) == "ViewportFrame"@,
        lower(tag) == "input"@ ==> (ty is None ==> instance_type(tag, ty) == "TextBox"@),
        lower(tag) == "input"@ ==> (ty matches Some(s) ==> ((eq_ic(s, "checkbox"@) || eq_ic(s, "radio"@))
            ==> instance_type(tag, ty) == "TextButton"@)),
        lower(tag) == "input"@ ==> (ty matches Some(s) ==> (!(eq_ic(s, "checkbox"@) || eq_ic(s, "radio"@))
            ==> instance_type(tag, ty) == "TextBox"@)),
        lower(tag) != "a"@ && lower(tag) != "article"@ && lower(tag) != "aside"@ && lower(tag) != "billboard"@ && lower(tag) != "billboardgui"@ && lower(tag) != "button"@ && lower(tag) != "canvas"@ && lower(tag) != "caption"@ && lower(tag) != "div"@ && lower(tag) != "figcaption"@ && lower(tag) != "footer"@ && lower(tag) != "gui"@ && lower(tag) != "h1"@ && lower(tag) != "h2"@ && lower(tag) != "h3"@ && lower(tag) != "h4"@ && lower(tag) != "h5"@ && lower(tag) != "h6"@ && lower(tag) != "header"@ && lower(tag) != "imagebutton"@ && lower(tag) != "img"@ && lower(tag) != "imgbutton"@ && lower(tag) != "input"@ && lower(tag) != "label"@ && lower(tag) != "main"@ && lower(tag) != "nav"@ && lower(tag) != "p"@ && lower(tag) != "picture"@ && lower(tag) != "screengui"@ && lower(tag) != "scroll"@ && lower(tag) != "scrollview"@ && lower(tag) != "section"@ && lower(tag) != "span"@ && lower(tag) != "surface"@ && lower(tag) != "surfacegui"@ && lower(tag) != "textarea"@ && lower(tag) != "video"@ && lower(tag) != "viewport"@ ==> instance_type(tag, ty) == "Frame"@,
{
    lemma_html_tags_apart();
    reveal_strlit("BillboardGui");
    reveal_strlit("CanvasGroup");
    reveal_strlit("Frame");
    reveal_strlit("ImageButton");
    reveal_strlit("ImageLabel");
    reveal_strlit("ScreenGui");
    reveal_strlit("ScrollingFrame");
    reveal_strlit("SurfaceGui");
    reveal_strlit("TextBox");
    reveal_strlit("TextButton");
    reveal_strlit("TextLabel");
    reveal_strlit("VideoFrame");
    reveal_strlit("ViewportFrame");
}


/// The tags whose text becomes a node's `Text` are the paragraph, span,
/// heading, label, button and link tags (any case); the tags that only
/// format text are `b`, `i`, `u` and `span`.
pub proof fn law_text_tags(tag: Seq<char>)
    ensures
        text_container(tag) <==> (lower(tag) == "a"@ || lower(tag) == "button"@ || lower(tag) == "h1"@ || lower(tag) == "h2"@ || lower(tag) == "h3"@ || lower(tag) == "h4"@ || lower(tag) == "h5"@ || lower(tag) == "h6"@ || lower(tag) == "label"@ || lower(tag) == "p"@ || lower(tag) == "span"@),
        inline_formatting(tag) <==> (lower(tag) == "b"@ || lower(tag) == "i"@ || lower(tag) == "span"@ || lower(tag) == "u"@),
{
}

/// Rich text of one node: text stands as it is; `b`, `i` and `u` (any case)
/// wrap the rich text of their children in the same tag; a `span` whose
/// style gives a color wraps it in a `font` tag of that color in hex; any
/// other element gives its children's rich text; other nodes give nothing.
pub proof fn law_rich_text_tags(n: SHtml)
    ensures
        n.kind matches SKind::Text(x) ==> rich_node(n) == Ok::<Seq<char>, SHalt>(x),
        n.kind is Other ==> rich_node(n) == Ok::<Seq<char>, SHalt>(Seq::empty()),
        n.kind matches SKind::Element(tag, attrs) ==> (rich_kids(n.kids) matches Ok(inner) ==> (
            (eq_ic(tag, "b"@) ==> rich_node(n) == Ok::<Seq<char>, SHalt>("<b>"@ + inner + "</b>"@))
            && (eq_ic(tag, "i"@) ==> rich_node(n) == Ok::<Seq<char>, SHalt>("<i>"@ + inner + "</i>"@))
            && (eq_ic(tag, "u"@) ==> rich_node(n) == Ok::<Seq<char>, SHalt>("<u>"@ + inner + "</u>"@))
            && (eq_ic(tag, "span"@) ==> rich_node(n) == match attr(attrs, "style"@) {
                Some(st) => match style_color(inline_style(st)) {
                    Some(c) => match hex_color(c) {
                        Ok(h) => Ok("<font color=\""@ + h + "\">"@ + inner + "</font>"@),
                        Err(e) => Err(e),
                    },
                    None => Ok(inner),
                },
                None => Ok(inner),
            })
            && (!eq_ic(tag, "b"@) && !eq_ic(tag, "i"@) && !eq_ic(tag, "u"@) && !eq_ic(tag, "span"@)
                ==> rich_node(n) == Ok::<Seq<char>, SHalt>(inner)))),
{
    reveal_strlit("b");
    reveal_strlit("i");
    reveal_strlit("u");
    reveal_strlit("span");
    if let SKind::Element(tag, attrs) = n.kind {
        if eq_ic(tag, "b"@) || eq_ic(tag, "i"@) || eq_ic(tag, "u"@) {
            assert(tag.len() == 1);
            assert(!eq_ic(tag, "span"@));
        }
        if eq_ic(tag, "i"@) || eq_ic(tag, "u"@) {
            assert(crate::text::ascii_lower(tag[0]) == crate::text::ascii_lower("i"@[0]) || crate::text::ascii_lower(tag[0]) == crate::text::ascii_lower("u"@[0]));
            assert(!eq_ic(tag, "b"@)) by {
                if eq_ic(tag, "b"@) {
                    assert(crate::text::ascii_lower(tag[0]) == crate::text::ascii_lower("b"@[0]));
                }
            }
        }
        if eq_ic(tag, "u"@) {
            assert(!eq_ic(tag, "i"@)) by {
                if eq_ic(tag, "i"@) {
                    assert(crate::text::ascii_lower(tag[0]) == crate::text::ascii_lower("i"@[0]));
                    assert(crate::text::ascii_lower(tag[0]) == crate::text::ascii_lower("u"@[0]));
                }
            }
        }
    }
}


/// A byte written in hex reads back as the same byte: two lower-case hex
/// digits, high digit first.
pub proof fn law_hex_byte_reads_back(b: nat)
    requires
        b < 256,
    ensures
        hex2(b).len() == 2,
        hex_val(hex2(b)[0]) == Some(b / 16),
        hex_val(hex2(b)[1]) == Some(b % 16),
        !('A' <= hex2(b)[0] && hex2(b)[0] <= 'Z') && !('A' <= hex2(b)[1] && hex2(b)[1] <= 'Z'),
{
    let hi = b / 16;
    let lo = b % 16;
    assert(hi < 16 && lo < 16);
    if hi < 10 {
        assert(((48 + hi) as char) as int == 48 + hi);
    } else {
        assert(((87 + hi) as char) as int == 87 + hi);
    }
    if lo < 10 {
        assert(((48 + lo) as char) as int == 48 + lo);
    } else {
        assert(((87 + lo) as char) as int == 87 + lo);
    }
}

/// `css_color_to_hex`: a three-character `#` code of ASCII characters is
/// widened to six hex digits, each digit's byte doubled (`#abc` to
/// `#aabbcc`); any other `#` code is kept; `rgb(r, g, b)` with three byte
/// values is written as their six hex digits in order; anything else is
/// black, `#000000`.
pub proof fn law_hex_color_values(color: Seq<char>)
    ensures
        ({
            let c = trim(color);
            let hex = strip_prefixes(c, "#"@);
            let nums = byte_values(split_char(keep_number_chars(c, false), ','));
            &&& starts_with(c, "#"@) && utf8_len(hex) == 3 && is_ascii(hex) ==> hex_color(color) == Ok::<
                Seq<char>,
                SHalt,
            >(
                "#"@ + hex2(doubled_hex(hex[0])) + hex2(doubled_hex(hex[1])) + hex2(
                    doubled_hex(hex[2]),
                ),
            )
            &&& starts_with(c, "#"@) && utf8_len(hex) != 3 ==> hex_color(color) == Ok::<
                Seq<char>,
                SHalt,
            >("#"@ + hex)
            &&& !starts_with(c, "#"@) && starts_with(c, "rgb"@) && nums.len() >= 3 ==> hex_color(color)
                == Ok::<Seq<char>, SHalt>("#"@ + hex2(nums[0]) + hex2(nums[1]) + hex2(nums[2]))
            &&& !starts_with(c, "#"@) && !(starts_with(c, "rgb"@) && nums.len() >= 3) ==> hex_color(
                color,
            ) == Ok::<Seq<char>, SHalt>("#000000"@)
        }),
        forall|ch: char| #[trigger] hex_val(ch) matches Some(v) ==> doubled_hex(ch) == 17 * v,
{
}

} // verus!
