//! Layout: turns CSS-shaped properties into Roblox helper objects
//! (UIPadding, UICorner, UIListLayout, ...) and a final `Size`.
use vstd::prelude::*;
use crate::text::{
    chars_of, concat, contains, contains_str, eq_ic, eq_ic_str, int_dec, lower, parse_i32,
    parse_i32_v, push_all, push_int, push_str, same_str, strip_suffixes, strip_suffixes_str,
    to_lowercase, trim, trim_v, views, words, words_v, ends_with, ends_with_str,
    strip_prefixes, strip_prefixes_str, split_char, split_char_v, starts_with,
    starts_with_str, dec, push_dec, find, find_from, is_ws, is_digit, occurs_at, trim_start,
    trim_end, lemma_find_from,
};
use crate::num::{asks_fresh, fresh_err, 
    is_float_lit, lit_or, lit_or_v, num, num_or, number, number_or, resv, float_lit, Halt,
    NumOp, NumTable, SHalt, STable,
};
use crate::dom::{
    lemma_nviews, lemma_nviews_insert0, lemma_nviews_push, nview, nviews, pget, phas, pinsert,
    premove, same_kids, same_shape, lemma_kids_trans, law_get_after_insert, law_get_after_remove, snew, LuauNode, PropMap, SNode, SProps,
};
use crate::mapping::{
    color, color_v, float_pieces, float_pieces_v, nth_or, nth_or_v, udim2_x, udim2_y, wrapped,
};

verus! {

/// The node with `props` in place of its properties.
pub open spec fn with_props(n: SNode, p: SProps) -> SNode {
    SNode { props: p, ..n }
}

/// The node with `h` put in front of its helpers.
pub open spec fn front_helper(n: SNode, h: SNode) -> SNode {
    SNode { helpers: seq![h] + n.helpers, ..n }
}

/// A helper object whose class and name are both `it`.
pub open spec fn helper(it: Seq<char>) -> SNode {
    snew(it, it)
}

/// A helper object with one property.
pub open spec fn helper1(it: Seq<char>, k: Seq<char>, v: Seq<char>) -> SNode {
    with_props(helper(it), pinsert(Seq::empty(), k, v))
}

/// Whether the result of a step that edits the node agrees with its statement.
pub open spec fn step_ok(r: Result<(), Halt>, after: SNode, s: Result<SNode, SHalt>) -> bool {
    match s {
        Ok(m) => r is Ok && after == m,
        Err(e) => r matches Err(h) && h@ == e,
    }
}

/// With a flex parent and no size of its own, a node sizes itself along the
/// parent's axis.
pub open spec fn auto_step(n: SNode, pfc: Option<bool>) -> SNode {
    match pfc {
        Some(col) => if !phas(n.props, "SizeX"@) && !phas(n.props, "SizeY"@) {
            with_props(
                n,
                pinsert(
                    n.props,
                    "AutomaticSize"@,
                    if col {
                        "Enum.AutomaticSize.Y"@
                    } else {
                        "Enum.AutomaticSize.X"@
                    },
                ),
            )
        } else {
            n
        },
        None => n,
    }
}

fn auto_step_v(node: &mut LuauNode, pfc: Option<bool>)
    ensures
        final(node)@ == auto_step(old(node)@, pfc),
{
    if let Some(col) = pfc {
        if !node.properties.contains_key("SizeX") && !node.properties.contains_key("SizeY") {
            if col {
                node.properties.insert("AutomaticSize", "Enum.AutomaticSize.Y");
            } else {
                node.properties.insert("AutomaticSize", "Enum.AutomaticSize.X");
            }
        }
    }
}

/// The words, with trailing `px` removed, that `parse::<f32>` accepts.
pub open spec fn px_words(ws: Seq<Seq<char>>) -> Seq<Seq<char>>
    decreases ws.len(),
{
    if ws.len() == 0 {
        ws
    } else {
        let rest = px_words(ws.drop_last());
        let p = strip_suffixes(ws.last(), "px"@);
        if is_float_lit(p) {
            rest.push(p)
        } else {
            rest
        }
    }
}

fn px_words_v(ws: &Vec<Vec<char>>) -> (r: Vec<Vec<char>>)
    ensures
        views(r@) == px_words(views(ws@)),
{
    let mut out: Vec<Vec<char>> = Vec::new();
    let mut i: usize = 0;
    while i < ws.len()
        invariant
            i <= ws.len(),
            views(out@) == px_words(views(ws@).take(i as int)),
        decreases ws.len() - i,
    {
        let p = strip_suffixes_str(&ws[i], "px");
        proof {
            assert(views(ws@).take(i + 1).drop_last() =~= views(ws@).take(i as int));
            assert(views(ws@).take(i + 1).last() == ws@[i as int]@);
        }
        if float_lit(&p) {
            let ghost before = out@;
            out.push(p);
            proof {
                assert(views(out@) =~= views(before).push(p@));
            }
        }
        i = i + 1;
    }
    assert(views(ws@).take(ws.len() as int) =~= views(ws@));
    out
}

/// `parse_padding`: the left, right, top and bottom padding literals of a
/// `padding` shorthand (one, two or four lengths).
pub open spec fn pad4(v: Seq<char>) -> Seq<Seq<char>> {
    let p = px_words(words(v));
    if p.len() == 1 {
        seq![p[0], p[0], p[0], p[0]]
    } else if p.len() == 2 {
        seq![p[0], p[1], p[0], p[1]]
    } else if p.len() == 4 {
        p
    } else {
        seq!["0"@, "0"@, "0"@, "0"@]
    }
}

fn parse_padding(v: &Vec<char>) -> (r: Vec<Vec<char>>)
    ensures
        views(r@) == pad4(v@),
{
    let ws = words_v(v);
    let p = px_words_v(&ws);
    let ghost pv = views(p@);
    let r: Vec<Vec<char>> = if p.len() == 1 {
        assert(pv[0] == p@[0]@);
        vec![crate::text::copy(&p[0]), crate::text::copy(&p[0]), crate::text::copy(&p[0]), crate::text::copy(&p[0])]
    } else if p.len() == 2 {
        assert(pv[0] == p@[0]@);
        assert(pv[1] == p@[1]@);
        vec![crate::text::copy(&p[0]), crate::text::copy(&p[1]), crate::text::copy(&p[0]), crate::text::copy(&p[1])]
    } else if p.len() == 4 {
        assert(pv[0] == p@[0]@);
        assert(pv[1] == p@[1]@);
        assert(pv[2] == p@[2]@);
        assert(pv[3] == p@[3]@);
        vec![crate::text::copy(&p[0]), crate::text::copy(&p[1]), crate::text::copy(&p[2]), crate::text::copy(&p[3])]
    } else {
        vec![chars_of("0"), chars_of("0"), chars_of("0"), chars_of("0")]
    };
    assert(views(r@) =~= pad4(v@));
    r
}

/// One side: the `PaddingLeft`-style property when present, else `cur`.
pub open spec fn pad_side(p: SProps, key: Seq<char>, cur: Seq<char>) -> Seq<char> {
    match pget(p, key) {
        Some(v) => lit_or(strip_suffixes(v, "px"@), "0"@),
        None => cur,
    }
}

fn pad_side_v(p: &PropMap, key: &str, cur: Vec<char>) -> (r: Vec<char>)
    ensures
        r@ == pad_side(p@, key@, cur@),
{
    match p.get(key) {
        Some(v) => lit_or_v(&strip_suffixes_str(&v, "px"), "0"),
        None => cur,
    }
}

/// `UDim.new(0, n)`.
pub open spec fn udim_off(r: Result<Seq<char>, SHalt>) -> Result<Seq<char>, SHalt> {
    wrapped("UDim.new(0, "@, r, ")"@)
}

/// The `UIPadding` helper for the four side literals.
pub open spec fn padding_node(l: Seq<char>, r: Seq<char>, tp: Seq<char>, b: Seq<char>, t: STable) -> Result<SNode, SHalt> {
    match udim_off(num(t, NumOp::Show, l)) {
        Ok(lv) => match udim_off(num(t, NumOp::Show, r)) {
            Ok(rv) => match udim_off(num(t, NumOp::Show, tp)) {
                Ok(tv) => match udim_off(num(t, NumOp::Show, b)) {
                    Ok(bv) => Ok(
                        with_props(
                            helper("UIPadding"@),
                            pinsert(
                                pinsert(
                                    pinsert(
                                        pinsert(Seq::empty(), "PaddingLeft"@, lv),
                                        "PaddingRight"@,
                                        rv,
                                    ),
                                    "PaddingTop"@,
                                    tv,
                                ),
                                "PaddingBottom"@,
                                bv,
                            ),
                        ),
                    ),
                    Err(e) => Err(e),
                },
                Err(e) => Err(e),
            },
            Err(e) => Err(e),
        },
        Err(e) => Err(e),
    }
}

fn udim_off_v(t: &NumTable, lit: &Vec<char>) -> (r: Result<Vec<char>, Halt>)
    ensures
        fresh_err(t@, r),
        resv(r) == udim_off(num(t@, NumOp::Show, lit@)),
{
    let n = number(t, NumOp::Show, lit)?;
    let mut o = chars_of("UDim.new(0, ");
    push_all(&mut o, &n);
    push_str(&mut o, ")");
    Ok(o)
}

fn padding_node_v(l: &Vec<char>, r: &Vec<char>, tp: &Vec<char>, b: &Vec<char>, t: &NumTable) -> (o: Result<LuauNode, Halt>)
    ensures
        fresh_err(t@, o),
        resv(o) == padding_node(l@, r@, tp@, b@, t@),
{
    let lv = udim_off_v(t, l)?;
    let rv = udim_off_v(t, r)?;
    let tv = udim_off_v(t, tp)?;
    let bv = udim_off_v(t, b)?;
    let mut h = LuauNode::new("UIPadding", "UIPadding");
    h.properties.insert_v(&chars_of("PaddingLeft"), &lv);
    h.properties.insert_v(&chars_of("PaddingRight"), &rv);
    h.properties.insert_v(&chars_of("PaddingTop"), &tv);
    h.properties.insert_v(&chars_of("PaddingBottom"), &bv);
    Ok(h)
}

pub open spec fn has_padding(p: SProps) -> bool {
    phas(p, "Padding"@) || phas(p, "PaddingLeft"@) || phas(p, "PaddingRight"@) || phas(
        p,
        "PaddingTop"@,
    ) || phas(p, "PaddingBottom"@)
}

pub open spec fn without_padding(p: SProps) -> SProps {
    premove(
        premove(
            premove(premove(premove(p, "Padding"@), "PaddingLeft"@), "PaddingRight"@),
            "PaddingTop"@,
        ),
        "PaddingBottom"@,
    )
}

/// Padding properties become a `UIPadding` helper in front.
pub open spec fn padding_step(n: SNode, t: STable) -> Result<SNode, SHalt> {
    let p = n.props;
    let base = match pget(p, "Padding"@) {
        Some(v) => pad4(v),
        None => seq!["0"@, "0"@, "0"@, "0"@],
    };
    let l = pad_side(p, "PaddingLeft"@, base[0]);
    let r = pad_side(p, "PaddingRight"@, base[1]);
    let tp = pad_side(p, "PaddingTop"@, base[2]);
    let b = pad_side(p, "PaddingBottom"@, base[3]);
    if has_padding(p) {
        match padding_node(l, r, tp, b, t) {
            Ok(h) => Ok(front_helper(with_props(n, without_padding(p)), h)),
            Err(e) => Err(e),
        }
    } else {
        Ok(with_props(n, without_padding(p)))
    }
}

fn push_helper_front(node: &mut LuauNode, h: LuauNode)
    ensures
        final(node)@ == front_helper(old(node)@, h@),
{
    node.helpers.insert(0, h);
    proof {
        lemma_nviews_insert0(old(node).helpers@, h);
    }
}

fn padding_step_v(node: &mut LuauNode, t: &NumTable) -> (r: Result<(), Halt>)
    ensures
        fresh_err(t@, r),
        step_ok(r, final(node)@, padding_step(old(node)@, t@)),
{
    let base: Vec<Vec<char>> = match node.properties.get("Padding") {
        Some(v) => parse_padding(&v),
        None => vec![chars_of("0"), chars_of("0"), chars_of("0"), chars_of("0")],
    };
    let ghost bv = views(base@);
    proof {
        assert(bv =~= match pget(node@.props, "Padding"@) {
            Some(v) => pad4(v),
            None => seq!["0"@, "0"@, "0"@, "0"@],
        });
        assert(bv[0] == base@[0]@);
        assert(bv[1] == base@[1]@);
        assert(bv[2] == base@[2]@);
        assert(bv[3] == base@[3]@);
    }
    let l = pad_side_v(&node.properties, "PaddingLeft", crate::text::copy(&base[0]));
    let r = pad_side_v(&node.properties, "PaddingRight", crate::text::copy(&base[1]));
    let tp = pad_side_v(&node.properties, "PaddingTop", crate::text::copy(&base[2]));
    let b = pad_side_v(&node.properties, "PaddingBottom", crate::text::copy(&base[3]));
    let need = node.properties.contains_key("Padding") || node.properties.contains_key(
        "PaddingLeft",
    ) || node.properties.contains_key("PaddingRight") || node.properties.contains_key(
        "PaddingTop",
    ) || node.properties.contains_key("PaddingBottom");
    let h = if need {
        match padding_node_v(&l, &r, &tp, &b, t) {
            Ok(h) => Some(h),
            Err(e) => {
                return Err(e);
            },
        }
    } else {
        None
    };
    node.properties.remove("Padding");
    node.properties.remove("PaddingLeft");
    node.properties.remove("PaddingRight");
    node.properties.remove("PaddingTop");
    node.properties.remove("PaddingBottom");
    if let Some(h) = h {
        push_helper_front(node, h);
    }
    Ok(())
}

/// `parse_corner_radius`: a CSS radius as a `UDim`; 50% (within one percent)
/// is exactly half.
pub open spec fn corner(value: Seq<char>, t: STable) -> Result<Seq<char>, SHalt> {
    let v = trim(value);
    if ends_with(v, "%"@) {
        let l = lit_or(strip_suffixes(v, "%"@), "0"@);
        match num(t, NumOp::NearFifty, l) {
            Ok(near) => if near == "true"@ {
                Ok("UDim.new(0.5, 0)"@)
            } else {
                wrapped("UDim.new("@, num(t, NumOp::Percent, l), ", 0)"@)
            },
            Err(e) => Err(e),
        }
    } else if ends_with(v, "px"@) {
        udim_off(num_or(t, NumOp::Show, strip_suffixes(v, "px"@), "0"@))
    } else {
        Ok("UDim.new(0, 0)"@)
    }
}

fn parse_corner_radius(value: &Vec<char>, t: &NumTable) -> (r: Result<Vec<char>, Halt>)
    ensures
        fresh_err(t@, r),
        resv(r) == corner(value@, t@),
{
    let v = trim_v(value);
    if ends_with_str(&v, "%") {
        let l = lit_or_v(&strip_suffixes_str(&v, "%"), "0");
        let near = number(t, NumOp::NearFifty, &l)?;
        if same_str(&near, "true") {
            Ok(chars_of("UDim.new(0.5, 0)"))
        } else {
            let n = number(t, NumOp::Percent, &l)?;
            let mut o = chars_of("UDim.new(");
            push_all(&mut o, &n);
            push_str(&mut o, ", 0)");
            Ok(o)
        }
    } else if ends_with_str(&v, "px") {
        let l = lit_or_v(&strip_suffixes_str(&v, "px"), "0");
        udim_off_v(t, &l)
    } else {
        Ok(chars_of("UDim.new(0, 0)"))
    }
}

/// `CornerRadius` becomes a `UICorner` helper in front.
pub open spec fn corner_step(n: SNode, t: STable) -> Result<SNode, SHalt> {
    match pget(n.props, "CornerRadius"@) {
        Some(cr) => match corner(cr, t) {
            Ok(c) => Ok(
                front_helper(
                    with_props(n, premove(n.props, "CornerRadius"@)),
                    helper1("UICorner"@, "CornerRadius"@, c),
                ),
            ),
            Err(e) => Err(e),
        },
        None => Ok(n),
    }
}

fn corner_step_v(node: &mut LuauNode, t: &NumTable) -> (r: Result<(), Halt>)
    ensures
        fresh_err(t@, r),
        step_ok(r, final(node)@, corner_step(old(node)@, t@)),
{
    match node.properties.get("CornerRadius") {
        Some(cr) => {
            let c = parse_corner_radius(&cr, t)?;
            let mut h = LuauNode::new("UICorner", "UICorner");
            h.properties.insert_v(&chars_of("CornerRadius"), &c);
            node.properties.remove("CornerRadius");
            push_helper_front(node, h);
            Ok(())
        },
        None => Ok(()),
    }
}

} // verus!

verus! {

pub open spec fn flex_src(p: SProps) -> Option<Seq<char>> {
    match pget(p, "FlexDirection"@) {
        Some(v) => Some(v),
        None => pget(p, "display"@),
    }
}

pub open spec fn has_flex(p: SProps) -> bool {
    match flex_src(p) {
        Some(v) => contains(v, "flex"@) || eq_ic(v, "row"@) || eq_ic(v, "column"@),
        None => false,
    }
}

/// For a flex container, whether it lays out in a column.
pub open spec fn flex_column(p: SProps) -> Option<bool> {
    if has_flex(p) {
        Some(
            eq_ic(
                match pget(p, "FlexDirection"@) {
                    Some(d) => d,
                    None => "row"@,
                },
                "column"@,
            ),
        )
    } else {
        None
    }
}

pub open spec fn vert(v: Seq<char>) -> Seq<char> {
    let l = lower(v);
    if l == "center"@ {
        "Enum.VerticalAlignment.Center"@
    } else if l == "flex-end"@ || l == "end"@ {
        "Enum.VerticalAlignment.Bottom"@
    } else {
        "Enum.VerticalAlignment.Top"@
    }
}

pub open spec fn horiz(v: Seq<char>) -> Seq<char> {
    let l = lower(v);
    if l == "center"@ {
        "Enum.HorizontalAlignment.Center"@
    } else if l == "flex-end"@ || l == "end"@ {
        "Enum.HorizontalAlignment.Right"@
    } else {
        "Enum.HorizontalAlignment.Left"@
    }
}

fn vert_v(v: &Vec<char>) -> (r: Vec<char>)
    ensures
        r@ == vert(v@),
{
    let l = to_lowercase(v);
    if same_str(&l, "center") {
        chars_of("Enum.VerticalAlignment.Center")
    } else if same_str(&l, "flex-end") || same_str(&l, "end") {
        chars_of("Enum.VerticalAlignment.Bottom")
    } else {
        chars_of("Enum.VerticalAlignment.Top")
    }
}

fn horiz_v(v: &Vec<char>) -> (r: Vec<char>)
    ensures
        r@ == horiz(v@),
{
    let l = to_lowercase(v);
    if same_str(&l, "center") {
        chars_of("Enum.HorizontalAlignment.Center")
    } else if same_str(&l, "flex-end") || same_str(&l, "end") {
        chars_of("Enum.HorizontalAlignment.Right")
    } else {
        chars_of("Enum.HorizontalAlignment.Left")
    }
}

fn get_or(p: &PropMap, k: &str, d: &str) -> (r: Vec<char>)
    ensures
        r@ == (match pget(p@, k@) {
            Some(v) => v,
            None => d@,
        }),
{
    match p.get(k) {
        Some(v) => v,
        None => chars_of(d),
    }
}

fn flex_column_v(p: &PropMap) -> (r: Option<bool>)
    ensures
        r == flex_column(p@),
{
    let src = match p.get("FlexDirection") {
        Some(v) => Some(v),
        None => p.get("display"),
    };
    let has = match src {
        Some(v) => contains_str(&v, "flex") || eq_ic_str(&v, "row") || eq_ic_str(&v, "column"),
        None => false,
    };
    if has {
        let d = get_or(p, "FlexDirection", "row");
        Some(eq_ic_str(&d, "column"))
    } else {
        None
    }
}

/// The `UIListLayout` helper of a flex container.
pub open spec fn list_node(p: SProps) -> SNode {
    let col = flex_column(p) == Some(true);
    let justify = match pget(p, "JustifyContent"@) {
        Some(v) => v,
        None => "flex-start"@,
    };
    let align = match pget(p, "AlignItems"@) {
        Some(v) => v,
        None => "stretch"@,
    };
    let m0 = pinsert(
        Seq::empty(),
        "FillDirection"@,
        if col {
            "Enum.FillDirection.Vertical"@
        } else {
            "Enum.FillDirection.Horizontal"@
        },
    );
    let m1 = if col {
        pinsert(pinsert(m0, "VerticalAlignment"@, vert(justify)), "HorizontalAlignment"@, horiz(align))
    } else {
        pinsert(pinsert(m0, "HorizontalAlignment"@, horiz(justify)), "VerticalAlignment"@, vert(align))
    };
    let m2 = match pget(p, "LayoutGap"@) {
        Some(g) => match parse_i32(g) {
            Some(k) => pinsert(m1, "Padding"@, "UDim.new(0, "@ + int_dec(k) + ")"@),
            None => m1,
        },
        None => m1,
    };
    with_props(helper("UIListLayout"@), m2)
}

/// A flex container gets a `UIListLayout` helper in front; its flex
/// properties are consumed.
pub open spec fn flex_step(n: SNode) -> SNode {
    let p = n.props;
    if has_flex(p) {
        let p2 = premove(
            premove(premove(premove(premove(p, "LayoutGap"@), "FlexDirection"@), "display"@), "JustifyContent"@),
            "AlignItems"@,
        );
        front_helper(with_props(n, p2), list_node(p))
    } else {
        n
    }
}

fn list_node_v(p: &PropMap) -> (r: LuauNode)
    ensures
        r@ == list_node(p@),
{
    let col = flex_column_v(p) == Some(true);
    let justify = get_or(p, "JustifyContent", "flex-start");
    let align = get_or(p, "AlignItems", "stretch");
    let mut h = LuauNode::new("UIListLayout", "UIListLayout");
    if col {
        h.properties.insert("FillDirection", "Enum.FillDirection.Vertical");
        h.properties.insert_v(&chars_of("VerticalAlignment"), &vert_v(&justify));
        h.properties.insert_v(&chars_of("HorizontalAlignment"), &horiz_v(&align));
    } else {
        h.properties.insert("FillDirection", "Enum.FillDirection.Horizontal");
        h.properties.insert_v(&chars_of("HorizontalAlignment"), &horiz_v(&justify));
        h.properties.insert_v(&chars_of("VerticalAlignment"), &vert_v(&align));
    }
    if let Some(g) = p.get("LayoutGap") {
        if let Some(k) = parse_i32_v(&g) {
            let mut o = chars_of("UDim.new(0, ");
            push_int(&mut o, k as i64);
            push_str(&mut o, ")");
            h.properties.insert_v(&chars_of("Padding"), &o);
        }
    }
    h
}

fn flex_step_v(node: &mut LuauNode) -> (fc: Option<bool>)
    ensures
        final(node)@ == flex_step(old(node)@),
        fc == flex_column(old(node)@.props),
{
    let fc = flex_column_v(&node.properties);
    if fc.is_some() {
        let h = list_node_v(&node.properties);
        node.properties.remove("LayoutGap");
        node.properties.remove("FlexDirection");
        node.properties.remove("display");
        node.properties.remove("JustifyContent");
        node.properties.remove("AlignItems");
        push_helper_front(node, h);
    }
    fc
}

/// `AspectRatio` becomes a `UIAspectRatioConstraint` helper in front.
pub open spec fn aspect_step(n: SNode) -> SNode {
    match pget(n.props, "AspectRatio"@) {
        Some(ar) => front_helper(
            with_props(n, premove(n.props, "AspectRatio"@)),
            helper1("UIAspectRatioConstraint"@, "AspectRatio"@, ar),
        ),
        None => n,
    }
}

fn aspect_step_v(node: &mut LuauNode)
    ensures
        final(node)@ == aspect_step(old(node)@),
{
    if let Some(ar) = node.properties.get("AspectRatio") {
        let mut h = LuauNode::new("UIAspectRatioConstraint", "UIAspectRatioConstraint");
        h.properties.insert_v(&chars_of("AspectRatio"), &ar);
        node.properties.remove("AspectRatio");
        push_helper_front(node, h);
    }
}

/// The `Display` (or `display`) property, if any.
pub open spec fn display_of(p: SProps) -> Option<Seq<char>> {
    match pget(p, "Display"@) {
        Some(v) => Some(v),
        None => pget(p, "display"@),
    }
}

pub open spec fn display_is(d: Option<Seq<char>>, w: Seq<char>) -> bool {
    match d {
        Some(v) => eq_ic(v, w),
        None => false,
    }
}

pub open spec fn without_display(p: SProps) -> SProps {
    premove(premove(p, "Display"@), "display"@)
}

/// `UDim2.new(0, a, 0, b)`.
pub open spec fn cell(a: Seq<char>, b: Seq<char>) -> Seq<char> {
    "UDim2.new(0, "@ + a + ", 0, "@ + b + ")"@
}

/// The grid cell size, when a cell width is given.
pub open spec fn cell_size(p: SProps, t: STable) -> Result<Option<Seq<char>>, SHalt> {
    match pget(p, "GridCellWidth"@) {
        Some(cw) => match num_or(t, NumOp::Show, strip_suffixes(cw, "px"@), "100"@) {
            Ok(w) => match (match pget(p, "GridCellHeight"@) {
                Some(h) => num_or(t, NumOp::Show, strip_suffixes(h, "px"@), "100"@),
                None => num(t, NumOp::Show, "100"@),
            }) {
                Ok(h) => Ok(Some(cell(w, h))),
                Err(e) => Err(e),
            },
            Err(e) => Err(e),
        },
        None => Ok(None),
    }
}

/// The grid cell padding, when given.
pub open spec fn cell_padding(p: SProps, t: STable) -> Result<Option<Seq<char>>, SHalt> {
    match pget(p, "GridPadding"@) {
        Some(g) => match num_or(t, NumOp::Show, strip_suffixes(g, "px"@), "0"@) {
            Ok(v) => Ok(Some(cell(v, v))),
            Err(e) => Err(e),
        },
        None => Ok(None),
    }
}

pub open spec fn insert_opt(m: SProps, k: Seq<char>, v: Option<Seq<char>>) -> SProps {
    match v {
        Some(x) => pinsert(m, k, x),
        None => m,
    }
}

/// A grid container gets a `UIGridLayout` helper in front.
pub open spec fn grid_step(n: SNode, t: STable) -> Result<SNode, SHalt> {
    let p = n.props;
    match cell_size(p, t) {
        Ok(cs) => match cell_padding(p, t) {
            Ok(cp) => {
                let m = insert_opt(insert_opt(Seq::empty(), "CellSize"@, cs), "CellPadding"@, cp);
                let p1 = if cs is Some {
                    premove(premove(p, "GridCellWidth"@), "GridCellHeight"@)
                } else {
                    p
                };
                let p2 = if cp is Some {
                    premove(p1, "GridPadding"@)
                } else {
                    p1
                };
                Ok(
                    front_helper(
                        with_props(n, without_display(p2)),
                        with_props(helper("UIGridLayout"@), m),
                    ),
                )
            },
            Err(e) => Err(e),
        },
        Err(e) => Err(e),
    }
}

/// The layout helper named by `display`, if any.
pub open spec fn plain_layout_step(n: SNode, d: Option<Seq<char>>, w: Seq<char>, it: Seq<char>) -> SNode {
    if display_is(d, w) {
        front_helper(with_props(n, without_display(n.props)), helper(it))
    } else {
        n
    }
}

/// `display: grid`, `table` or `page` becomes the matching layout helper.
pub open spec fn display_step(n: SNode, t: STable) -> Result<SNode, SHalt> {
    let d = display_of(n.props);
    match (if display_is(d, "grid"@) {
        grid_step(n, t)
    } else {
        Ok(n)
    }) {
        Ok(n1) => Ok(
            plain_layout_step(
                plain_layout_step(n1, d, "table"@, "UITableLayout"@),
                d,
                "page"@,
                "UIPageLayout"@,
            ),
        ),
        Err(e) => Err(e),
    }
}

fn cell_size_v(p: &PropMap, t: &NumTable) -> (r: Result<Option<Vec<char>>, Halt>)
    ensures
        fresh_err(t@, r),
        match cell_size(p@, t@) {
            Ok(Some(c)) => r matches Ok(Some(x)) && x@ == c,
            Ok(None) => r matches Ok(None),
            Err(e) => r matches Err(h) && h@ == e,
        },
{
    match p.get("GridCellWidth") {
        Some(cw) => {
            let w = number_or(t, NumOp::Show, &strip_suffixes_str(&cw, "px"), "100")?;
            let h = match p.get("GridCellHeight") {
                Some(hh) => number_or(t, NumOp::Show, &strip_suffixes_str(&hh, "px"), "100")?,
                None => number(t, NumOp::Show, &chars_of("100"))?,
            };
            let mut o = chars_of("UDim2.new(0, ");
            push_all(&mut o, &w);
            push_str(&mut o, ", 0, ");
            push_all(&mut o, &h);
            push_str(&mut o, ")");
            Ok(Some(o))
        },
        None => Ok(None),
    }
}

fn cell_padding_v(p: &PropMap, t: &NumTable) -> (r: Result<Option<Vec<char>>, Halt>)
    ensures
        fresh_err(t@, r),
        match cell_padding(p@, t@) {
            Ok(Some(c)) => r matches Ok(Some(x)) && x@ == c,
            Ok(None) => r matches Ok(None),
            Err(e) => r matches Err(h) && h@ == e,
        },
{
    match p.get("GridPadding") {
        Some(g) => {
            let v = number_or(t, NumOp::Show, &strip_suffixes_str(&g, "px"), "0")?;
            let mut o = chars_of("UDim2.new(0, ");
            push_all(&mut o, &v);
            push_str(&mut o, ", 0, ");
            push_all(&mut o, &v);
            push_str(&mut o, ")");
            Ok(Some(o))
        },
        None => Ok(None),
    }
}

fn grid_step_v(node: &mut LuauNode, t: &NumTable) -> (r: Result<(), Halt>)
    ensures
        fresh_err(t@, r),
        step_ok(r, final(node)@, grid_step(old(node)@, t@)),
{
    let cs = cell_size_v(&node.properties, t)?;
    let cp = cell_padding_v(&node.properties, t)?;
    let mut h = LuauNode::new("UIGridLayout", "UIGridLayout");
    if let Some(c) = &cs {
        h.properties.insert_v(&chars_of("CellSize"), c);
        node.properties.remove("GridCellWidth");
        node.properties.remove("GridCellHeight");
    }
    if let Some(c) = &cp {
        h.properties.insert_v(&chars_of("CellPadding"), c);
        node.properties.remove("GridPadding");
    }
    node.properties.remove("Display");
    node.properties.remove("display");
    push_helper_front(node, h);
    Ok(())
}

fn display_of_v(p: &PropMap) -> (r: Option<Vec<char>>)
    ensures
        r matches Some(v) ==> display_of(p@) == Some(v@),
        r is None ==> display_of(p@) is None,
{
    match p.get("Display") {
        Some(v) => Some(v),
        None => p.get("display"),
    }
}

fn display_is_v(d: &Option<Vec<char>>, w: &str) -> (r: bool)
    ensures
        r == display_is(
            match d {
                Some(v) => Some(v@),
                None => None,
            },
            w@,
        ),
{
    match d {
        Some(v) => eq_ic_str(v, w),
        None => false,
    }
}

fn display_step_v(node: &mut LuauNode, t: &NumTable) -> (r: Result<(), Halt>)
    ensures
        fresh_err(t@, r),
        step_ok(r, final(node)@, display_step(old(node)@, t@)),
{
    let d = display_of_v(&node.properties);
    let ghost dv = display_of(node@.props);
    assert(dv == match d {
        Some(v) => Some(v@),
        None => None::<Seq<char>>,
    });
    if display_is_v(&d, "grid") {
        grid_step_v(node, t)?;
    }
    if display_is_v(&d, "table") {
        node.properties.remove("Display");
        node.properties.remove("display");
        push_helper_front(node, LuauNode::new("UITableLayout", "UITableLayout"));
    }
    if display_is_v(&d, "page") {
        node.properties.remove("Display");
        node.properties.remove("display");
        push_helper_front(node, LuauNode::new("UIPageLayout", "UIPageLayout"));
    }
    Ok(())
}

} // verus!

verus! {

/// `ColorSequence.new({ColorSequenceKeypoint.new(0, a), ColorSequenceKeypoint.new(1, b)})`.
pub open spec fn color_sequence(a: Seq<char>, b: Seq<char>) -> Seq<char> {
    "ColorSequence.new({ColorSequenceKeypoint.new(0, "@ + a + "), ColorSequenceKeypoint.new(1, "@
        + b + ")})"@
}

/// The properties of a `UIGradient` for `"<color> <color> [<rotation>]"`.
pub open spec fn gradient_props(g: Seq<char>, t: STable) -> Result<SProps, SHalt> {
    let parts = words(g);
    match (if parts.len() >= 2 {
        match color(parts[0], t) {
            Ok(c1) => match color(parts[1], t) {
                Ok(c2) => Ok(pinsert(Seq::empty(), "Color"@, color_sequence(c1, c2))),
                Err(e) => Err(e),
            },
            Err(e) => Err(e),
        }
    } else {
        Ok(Seq::empty())
    }) {
        Ok(m1) => if parts.len() >= 3 {
            match num_or(t, NumOp::Show, parts[2], "0"@) {
                Ok(r) => Ok(pinsert(m1, "Rotation"@, r)),
                Err(e) => Err(e),
            }
        } else {
            Ok(m1)
        },
        Err(e) => Err(e),
    }
}

/// `Gradient` becomes a `UIGradient` helper in front.
pub open spec fn gradient_step(n: SNode, t: STable) -> Result<SNode, SHalt> {
    match pget(n.props, "Gradient"@) {
        Some(g) => match gradient_props(g, t) {
            Ok(m) => Ok(
                front_helper(
                    with_props(n, premove(n.props, "Gradient"@)),
                    with_props(helper("UIGradient"@), m),
                ),
            ),
            Err(e) => Err(e),
        },
        None => Ok(n),
    }
}

/// The properties of a `UIStroke` for `"<thickness> [<color>]"`.
pub open spec fn stroke_props(s: Seq<char>, t: STable) -> Result<SProps, SHalt> {
    let parts = words(s);
    match (if parts.len() > 0 {
        match num_or(t, NumOp::Show, strip_suffixes(parts[0], "px"@), "1"@) {
            Ok(x) => Ok(pinsert(Seq::empty(), "Thickness"@, x)),
            Err(e) => Err(e),
        }
    } else {
        Ok(Seq::empty())
    }) {
        Ok(m1) => if parts.len() > 1 {
            match color(parts[1], t) {
                Ok(c) => Ok(pinsert(m1, "Color"@, c)),
                Err(e) => Err(e),
            }
        } else {
            Ok(m1)
        },
        Err(e) => Err(e),
    }
}

/// `UIStroke` becomes a `UIStroke` helper in front.
pub open spec fn stroke_step(n: SNode, t: STable) -> Result<SNode, SHalt> {
    match pget(n.props, "UIStroke"@) {
        Some(s) => match stroke_props(s, t) {
            Ok(m) => Ok(
                front_helper(
                    with_props(n, premove(n.props, "UIStroke"@)),
                    with_props(helper("UIStroke"@), m),
                ),
            ),
            Err(e) => Err(e),
        },
        None => Ok(n),
    }
}

/// `UIScale` becomes a `UIScale` helper in front.
pub open spec fn scale_step(n: SNode) -> SNode {
    match pget(n.props, "UIScale"@) {
        Some(s) => front_helper(
            with_props(n, premove(n.props, "UIScale"@)),
            helper1("UIScale"@, "Scale"@, s),
        ),
        None => n,
    }
}

fn gradient_props_v(g: &Vec<char>, t: &NumTable) -> (r: Result<PropMap, Halt>)
    ensures
        fresh_err(t@, r),
        resv(r) == gradient_props(g@, t@),
{
    let parts = words_v(g);
    let ghost pv = views(parts@);
    let mut m = PropMap::new();
    if parts.len() >= 2 {
        assert(pv[0] == parts@[0]@);
        assert(pv[1] == parts@[1]@);
        let c1 = color_v(&parts[0], t)?;
        let c2 = color_v(&parts[1], t)?;
        let mut o = chars_of("ColorSequence.new({ColorSequenceKeypoint.new(0, ");
        push_all(&mut o, &c1);
        push_str(&mut o, "), ColorSequenceKeypoint.new(1, ");
        push_all(&mut o, &c2);
        push_str(&mut o, ")})");
        m.insert_v(&chars_of("Color"), &o);
    }
    if parts.len() >= 3 {
        assert(pv[2] == parts@[2]@);
        let r = number_or(t, NumOp::Show, &parts[2], "0")?;
        m.insert_v(&chars_of("Rotation"), &r);
    }
    Ok(m)
}

fn stroke_props_v(s: &Vec<char>, t: &NumTable) -> (r: Result<PropMap, Halt>)
    ensures
        fresh_err(t@, r),
        resv(r) == stroke_props(s@, t@),
{
    let parts = words_v(s);
    let ghost pv = views(parts@);
    let mut m = PropMap::new();
    if parts.len() > 0 {
        assert(pv[0] == parts@[0]@);
        let x = number_or(t, NumOp::Show, &strip_suffixes_str(&parts[0], "px"), "1")?;
        m.insert_v(&chars_of("Thickness"), &x);
    }
    if parts.len() > 1 {
        assert(pv[1] == parts@[1]@);
        let c = color_v(&parts[1], t)?;
        m.insert_v(&chars_of("Color"), &c);
    }
    Ok(m)
}

fn helper_with(it: &str, m: PropMap) -> (r: LuauNode)
    ensures
        r@ == with_props(helper(it@), m@),
{
    let mut h = LuauNode::new(it, it);
    h.properties = m;
    h
}

fn gradient_step_v(node: &mut LuauNode, t: &NumTable) -> (r: Result<(), Halt>)
    ensures
        fresh_err(t@, r),
        step_ok(r, final(node)@, gradient_step(old(node)@, t@)),
{
    if let Some(g) = node.properties.get("Gradient") {
        let m = gradient_props_v(&g, t)?;
        let h = helper_with("UIGradient", m);
        node.properties.remove("Gradient");
        push_helper_front(node, h);
    }
    Ok(())
}

fn stroke_step_v(node: &mut LuauNode, t: &NumTable) -> (r: Result<(), Halt>)
    ensures
        fresh_err(t@, r),
        step_ok(r, final(node)@, stroke_step(old(node)@, t@)),
{
    if let Some(s) = node.properties.get("UIStroke") {
        let m = stroke_props_v(&s, t)?;
        let h = helper_with("UIStroke", m);
        node.properties.remove("UIStroke");
        push_helper_front(node, h);
    }
    Ok(())
}

fn scale_step_v(node: &mut LuauNode)
    ensures
        final(node)@ == scale_step(old(node)@),
{
    if let Some(s) = node.properties.get("UIScale") {
        let mut h = LuauNode::new("UIScale", "UIScale");
        h.properties.insert_v(&chars_of("Scale"), &s);
        node.properties.remove("UIScale");
        push_helper_front(node, h);
    }
}

/// The node's own helpers, in the order the steps add them, and whether it
/// is a flex column (for its children).
pub open spec fn own_steps(n: SNode, pfc: Option<bool>, t: STable) -> Result<(SNode, Option<bool>), SHalt> {
    match padding_step(auto_step(n, pfc), t) {
        Ok(n2) => match corner_step(n2, t) {
            Ok(n3) => {
                let fc = flex_column(n3.props);
                match display_step(aspect_step(flex_step(n3)), t) {
                    Ok(n6) => match gradient_step(n6, t) {
                        Ok(n7) => match stroke_step(n7, t) {
                            Ok(n8) => Ok((scale_step(n8), fc)),
                            Err(e) => Err(e),
                        },
                        Err(e) => Err(e),
                    },
                    Err(e) => Err(e),
                }
            },
            Err(e) => Err(e),
        },
        Err(e) => Err(e),
    }
}

fn own_steps_v(node: &mut LuauNode, pfc: Option<bool>, t: &NumTable) -> (r: Result<Option<bool>, Halt>)
    ensures
        fresh_err(t@, r),
        match own_steps(old(node)@, pfc, t@) {
            Ok((m, fc)) => r == Ok::<Option<bool>, Halt>(fc) && final(node)@ == m,
            Err(e) => r matches Err(h) && h@ == e,
        },
{
    auto_step_v(node, pfc);
    padding_step_v(node, t)?;
    corner_step_v(node, t)?;
    let fc = flex_step_v(node);
    aspect_step_v(node);
    display_step_v(node, t)?;
    gradient_step_v(node, t)?;
    stroke_step_v(node, t)?;
    scale_step_v(node);
    Ok(fc)
}

pub open spec fn sizable(it: Seq<char>) -> bool {
    it == "textlabel"@ || it == "textbutton"@ || it == "textbox"@ || it == "frame"@ || it
        == "imagebutton"@ || it == "imagelabel"@
}

/// What a flex container does to its `idx`-th child (counted from 0) before
/// the child is laid out itself.
pub open spec fn kid_prep(c: SNode, idx: nat, fc: Option<bool>) -> SNode {
    let c1 = match pget(c.props, "FlexGrow"@) {
        Some(fg) => {
            let c0 = if fg == "1"@ {
                front_helper(c, helper1("UIFlexItem"@, "FlexMode"@, "Fill"@))
            } else {
                c
            };
            with_props(c0, premove(c0.props, "FlexGrow"@))
        },
        None => c,
    };
    match fc {
        Some(col) => {
            let c2 = if !phas(c1.props, "SizeX"@) && !phas(c1.props, "SizeY"@) && sizable(
                lower(c1.itype),
            ) {
                with_props(
                    c1,
                    pinsert(
                        c1.props,
                        "AutomaticSize"@,
                        if col {
                            "Enum.AutomaticSize.Y"@
                        } else {
                            "Enum.AutomaticSize.X"@
                        },
                    ),
                )
            } else {
                c1
            };
            with_props(c2, pinsert(c2.props, "LayoutOrder"@, dec(idx + 1)))
        },
        None => c1,
    }
}

fn kid_prep_v(c: &mut LuauNode, idx: usize, fc: Option<bool>)
    requires
        idx < u64::MAX,
    ensures
        final(c)@ == kid_prep(old(c)@, idx as nat, fc),
{
    if let Some(fg) = c.properties.get("FlexGrow") {
        if same_str(&fg, "1") {
            let mut h = LuauNode::new("UIFlexItem", "UIFlexItem");
            h.properties.insert("FlexMode", "Fill");
            push_helper_front(c, h);
        }
        c.properties.remove("FlexGrow");
    }
    if let Some(col) = fc {
        let it = to_lowercase(&chars_of(c.instance_type.as_str()));
        if !c.properties.contains_key("SizeX") && !c.properties.contains_key("SizeY") && (
        same_str(&it, "textlabel") || same_str(&it, "textbutton") || same_str(&it, "textbox")
            || same_str(&it, "frame") || same_str(&it, "imagebutton") || same_str(
            &it,
            "imagelabel",
        )) {
            if col {
                c.properties.insert("AutomaticSize", "Enum.AutomaticSize.Y");
            } else {
                c.properties.insert("AutomaticSize", "Enum.AutomaticSize.X");
            }
        }
        let mut o: Vec<char> = Vec::new();
        push_dec(&mut o, (idx as u64) + 1);
        assert(o@ == dec((idx + 1) as nat));
        c.properties.insert_v(&chars_of("LayoutOrder"), &o);
    }
}

/// `inject_helpers` on a node whose children are `kids`.
pub open spec fn inject_with(n: SNode, kids: Seq<SNode>, pfc: Option<bool>, t: STable) -> Result<SNode, SHalt>
    decreases kids, 1int,
{
    match own_steps(n, pfc, t) {
        Ok((m, fc)) => match inject_kids(kids, 0, fc, t) {
            Ok(ks) => Ok(SNode { children: ks, ..m }),
            Err(e) => Err(e),
        },
        Err(e) => Err(e),
    }
}

/// The children from index `idx` on, each prepared by its flex parent and laid out.
pub open spec fn inject_kids(kids: Seq<SNode>, idx: nat, fc: Option<bool>, t: STable) -> Result<Seq<SNode>, SHalt>
    decreases kids, 0int,
{
    if kids.len() == 0 {
        Ok(Seq::empty())
    } else {
        match inject_with(kid_prep(kids[0], idx, fc), kids[0].children, fc, t) {
            Ok(c) => match inject_kids(kids.drop_first(), idx + 1, fc, t) {
                Ok(rest) => Ok(seq![c] + rest),
                Err(e) => Err(e),
            },
            Err(e) => Err(e),
        }
    }
}

/// `inject_helpers`: helpers for the node and, recursively, its children.
pub open spec fn inject(n: SNode, pfc: Option<bool>, t: STable) -> Result<SNode, SHalt> {
    inject_with(n, n.children, pfc, t)
}

} // verus!

verus! {

proof fn lemma_nviews_first(s: Seq<LuauNode>)
    requires
        s.len() > 0,
    ensures
        nviews(s) == seq![nview(s[0])] + nviews(s.drop_first()),
        nviews(s.remove(0)) == nviews(s.drop_first()),
        nviews(s.drop_first()) == nviews(s).subrange(1, nviews(s).len() as int),
{
    assert(s.remove(0) =~= s.drop_first());
    lemma_nviews(s);
    lemma_nviews(s.drop_first());
    assert(nviews(s.drop_first()) =~= nviews(s).subrange(1, nviews(s).len() as int));
}

fn inject_helpers(node: LuauNode, pfc: Option<bool>, t: &NumTable) -> (r: Result<LuauNode, Halt>)
    ensures
        fresh_err(t@, r),
        resv(r) == inject(node@, pfc, t@),
    decreases node@.children, 1int,
{
    let mut node = node;
    let ghost n0 = node@;
    let fc = own_steps_v(&mut node, pfc, t)?;
    let ghost n1 = node@;
    assert(n1.children == n0.children);
    let mut kids: Vec<LuauNode> = Vec::new();
    std::mem::swap(&mut kids, &mut node.children);
    assert(nviews(kids@) == n0.children);
    let _kn = kids.len();
    let ks = inject_kids_v(kids, 0, fc, t)?;
    node.children = ks;
    assert(node@ == SNode { children: nviews(ks@), ..n1 });
    Ok(node)
}

fn inject_kids_v(kids: Vec<LuauNode>, idx: usize, fc: Option<bool>, t: &NumTable) -> (r: Result<Vec<LuauNode>, Halt>)
    requires
        idx + kids@.len() <= usize::MAX,
    ensures
        fresh_err(t@, r),
        match inject_kids(nviews(kids@), idx as nat, fc, t@) {
            Ok(ks) => r matches Ok(v) && nviews(v@) == ks,
            Err(e) => r matches Err(h) && h@ == e,
        },
    decreases nviews(kids@), 0int,
{
    let mut kids = kids;
    if kids.len() == 0 {
        assert(nviews(kids@) =~= Seq::<SNode>::empty());
        return Ok(Vec::new());
    }
    let ghost k0 = kids@;
    proof {
        lemma_nviews_first(k0);
    }
    let mut first = kids.remove(0);
    assert(nview(first) == nviews(k0)[0]);
    kid_prep_v(&mut first, idx, fc);
    let c = inject_helpers(first, fc, t)?;
    proof {
        vstd::seq::axiom_seq_subrange_decreases(nviews(k0), 1, nviews(k0).len() as int);
    }
    proof {
        assert(nviews(kids@) == nviews(k0).drop_first());
    }
    let mut rest = inject_kids_v(kids, idx + 1, fc, t)?;
    let ghost r0 = rest@;
    rest.insert(0, c);
    proof {
        lemma_nviews_insert0(r0, c);
    }
    Ok(rest)
}

} // verus!

verus! {

/// The numbers inside `p(...)` that `parse::<f32>` accepts.
pub open spec fn udim_inner(s: Seq<char>, p: Seq<char>) -> Seq<Seq<char>> {
    float_pieces(split_char(strip_suffixes(strip_prefixes(s, p), ")"@), ','))
}

/// The scale and offset literals of a UDim2 X expression written by `udim2_x`.
pub open spec fn udim_parts(s: Seq<char>, axis_y: bool) -> (Seq<char>, Seq<char>) {
    let s = trim(s);
    if starts_with(s, "UDim2.fromScale("@) {
        let ps = udim_inner(s, "UDim2.fromScale("@);
        (nth_or(ps, if axis_y { 1 } else { 0 }, "0"@), "0"@)
    } else if starts_with(s, "UDim2.fromOffset("@) {
        let ps = udim_inner(s, "UDim2.fromOffset("@);
        ("0"@, nth_or(ps, if axis_y { 1 } else { 0 }, "0"@))
    } else if starts_with(s, "UDim2.new("@) {
        let ps = udim_inner(s, "UDim2.new("@);
        if axis_y {
            (nth_or(ps, 2, "0"@), nth_or(ps, 3, "0"@))
        } else {
            (nth_or(ps, 0, "0"@), nth_or(ps, 1, "0"@))
        }
    } else {
        ("0"@, "0"@)
    }
}

fn inner_pieces(s: &Vec<char>, p: &str) -> (r: Vec<Vec<char>>)
    ensures
        views(r@) == udim_inner(s@, p@),
{
    let a = strip_prefixes_str(s, p);
    let b = strip_suffixes_str(&a, ")");
    let c = split_char_v(&b, ',');
    float_pieces_v(&c)
}

fn udim_parts_v(s: &Vec<char>, axis_y: bool) -> (r: (Vec<char>, Vec<char>))
    ensures
        (r.0@, r.1@) == udim_parts(s@, axis_y),
{
    let s = trim_v(s);
    if starts_with_str(&s, "UDim2.fromScale(") {
        let ps = inner_pieces(&s, "UDim2.fromScale(");
        (nth_or_v(&ps, if axis_y { 1 } else { 0 }, "0"), chars_of("0"))
    } else if starts_with_str(&s, "UDim2.fromOffset(") {
        let ps = inner_pieces(&s, "UDim2.fromOffset(");
        (chars_of("0"), nth_or_v(&ps, if axis_y { 1 } else { 0 }, "0"))
    } else if starts_with_str(&s, "UDim2.new(") {
        let ps = inner_pieces(&s, "UDim2.new(");
        if axis_y {
            (nth_or_v(&ps, 2, "0"), nth_or_v(&ps, 3, "0"))
        } else {
            (nth_or_v(&ps, 0, "0"), nth_or_v(&ps, 1, "0"))
        }
    } else {
        (chars_of("0"), chars_of("0"))
    }
}

/// What `build_size` returns: `SizeX` and `SizeY` combined into one `UDim2`; a missing
/// axis is full height, or zero width.
pub open spec fn size_of_props(p: SProps, t: STable) -> Result<Option<Seq<char>>, SHalt> {
    match (pget(p, "SizeX"@), pget(p, "SizeY"@)) {
        (Some(a), Some(b)) => {
            let (sx, ox) = udim_parts(a, false);
            let (sy, oy) = udim_parts(b, true);
            match num(t, NumOp::Show, sx) {
                Ok(vsx) => match num(t, NumOp::Show, ox) {
                    Ok(vox) => match num(t, NumOp::Show, sy) {
                        Ok(vsy) => match num(t, NumOp::Show, oy) {
                            Ok(voy) => Ok(
                                Some(
                                    "UDim2.new("@ + vsx + ", "@ + vox + ", "@ + vsy + ", "@ + voy
                                        + ")"@,
                                ),
                            ),
                            Err(e) => Err(e),
                        },
                        Err(e) => Err(e),
                    },
                    Err(e) => Err(e),
                },
                Err(e) => Err(e),
            }
        },
        (Some(a), None) => {
            let (sx, ox) = udim_parts(a, false);
            match num(t, NumOp::Show, sx) {
                Ok(vsx) => match num(t, NumOp::Show, ox) {
                    Ok(vox) => Ok(Some("UDim2.new("@ + vsx + ", "@ + vox + ", 1, 0)"@)),
                    Err(e) => Err(e),
                },
                Err(e) => Err(e),
            }
        },
        (None, Some(b)) => {
            let (sy, oy) = udim_parts(b, true);
            match num(t, NumOp::Show, sy) {
                Ok(vsy) => match num(t, NumOp::Show, oy) {
                    Ok(voy) => Ok(Some("UDim2.new(0, 0, "@ + vsy + ", "@ + voy + ")"@)),
                    Err(e) => Err(e),
                },
                Err(e) => Err(e),
            }
        },
        (None, None) => Ok(None),
    }
}

fn build_size(p: &PropMap, t: &NumTable) -> (r: Result<Option<Vec<char>>, Halt>)
    ensures
        fresh_err(t@, r),
        match size_of_props(p@, t@) {
            Ok(Some(c)) => r matches Ok(Some(x)) && x@ == c,
            Ok(None) => r matches Ok(None),
            Err(e) => r matches Err(h) && h@ == e,
        },
{
    let x = p.get("SizeX");
    let y = p.get("SizeY");
    match (x, y) {
        (Some(a), Some(b)) => {
            let (sx, ox) = udim_parts_v(&a, false);
            let (sy, oy) = udim_parts_v(&b, true);
            let vsx = number(t, NumOp::Show, &sx)?;
            let vox = number(t, NumOp::Show, &ox)?;
            let vsy = number(t, NumOp::Show, &sy)?;
            let voy = number(t, NumOp::Show, &oy)?;
            let mut o = chars_of("UDim2.new(");
            push_all(&mut o, &vsx);
            push_str(&mut o, ", ");
            push_all(&mut o, &vox);
            push_str(&mut o, ", ");
            push_all(&mut o, &vsy);
            push_str(&mut o, ", ");
            push_all(&mut o, &voy);
            push_str(&mut o, ")");
            Ok(Some(o))
        },
        (Some(a), None) => {
            let (sx, ox) = udim_parts_v(&a, false);
            let vsx = number(t, NumOp::Show, &sx)?;
            let vox = number(t, NumOp::Show, &ox)?;
            let mut o = chars_of("UDim2.new(");
            push_all(&mut o, &vsx);
            push_str(&mut o, ", ");
            push_all(&mut o, &vox);
            push_str(&mut o, ", 1, 0)");
            Ok(Some(o))
        },
        (None, Some(b)) => {
            let (sy, oy) = udim_parts_v(&b, true);
            let vsy = number(t, NumOp::Show, &sy)?;
            let voy = number(t, NumOp::Show, &oy)?;
            let mut o = chars_of("UDim2.new(0, 0, ");
            push_all(&mut o, &vsy);
            push_str(&mut o, ", ");
            push_all(&mut o, &voy);
            push_str(&mut o, ")");
            Ok(Some(o))
        },
        (None, None) => Ok(None),
    }
}

/// `finalize_properties`: the node's `Size`; the root fills its parent when
/// it has none.
pub open spec fn finalize(n: SNode, is_root: bool, t: STable) -> Result<SNode, SHalt> {
    match size_of_props(n.props, t) {
        Ok(Some(sz)) => Ok(
            with_props(n, premove(premove(pinsert(n.props, "Size"@, sz), "SizeX"@), "SizeY"@)),
        ),
        Ok(None) => Ok(
            if is_root {
                with_props(n, pinsert(n.props, "Size"@, "UDim2.new(1, 0, 1, 0)"@))
            } else {
                n
            },
        ),
        Err(e) => Err(e),
    }
}

fn finalize_properties(node: &mut LuauNode, is_root: bool, t: &NumTable) -> (r: Result<(), Halt>)
    ensures
        fresh_err(t@, r),
        step_ok(r, final(node)@, finalize(old(node)@, is_root, t@)),
{
    match build_size(&node.properties, t)? {
        Some(sz) => {
            node.properties.insert_v(&chars_of("Size"), &sz);
            node.properties.remove("SizeX");
            node.properties.remove("SizeY");
        },
        None => {
            if is_root {
                node.properties.insert("Size", "UDim2.new(1, 0, 1, 0)");
            }
        },
    }
    Ok(())
}

} // verus!

verus! {

/// Number of nodes in the tree (helpers not counted).
pub open spec fn size(n: SNode) -> nat
    decreases n,
{
    1 + sizes(n.children)
}

pub open spec fn sizes(s: Seq<SNode>) -> nat
    decreases s,
{
    if s.len() == 0 {
        0
    } else {
        size(s[0]) + sizes(s.drop_first())
    }
}

pub proof fn lemma_sizes_elem(s: Seq<SNode>, i: int)
    requires
        0 <= i < s.len(),
    ensures
        size(s[i]) <= sizes(s),
    decreases s.len(),
{
    if i > 0 {
        lemma_sizes_elem(s.drop_first(), i - 1);
    }
}

pub proof fn lemma_own_steps_children(n: SNode, pfc: Option<bool>, t: STable)
    ensures
        own_steps(n, pfc, t) matches Ok((m, _)) ==> m.children == n.children && m.itype == n.itype
            && m.name == n.name,
{
}

pub proof fn lemma_inject_with_sizes(n: SNode, kids: Seq<SNode>, pfc: Option<bool>, t: STable)
    ensures
        inject_with(n, kids, pfc, t) matches Ok(m) ==> sizes(m.children) == sizes(kids),
    decreases kids, 1int,
{
    lemma_own_steps_children(n, pfc, t);
    if let Ok((m, fc)) = own_steps(n, pfc, t) {
        lemma_inject_kids_sizes(kids, 0, fc, t);
    }
}

pub proof fn lemma_inject_kids_sizes(kids: Seq<SNode>, idx: nat, fc: Option<bool>, t: STable)
    ensures
        inject_kids(kids, idx, fc, t) matches Ok(ks) ==> sizes(ks) == sizes(kids),
    decreases kids, 0int,
{
    if kids.len() > 0 {
        let c0 = kid_prep(kids[0], idx, fc);
        lemma_inject_with_sizes(c0, kids[0].children, fc, t);
        lemma_inject_kids_sizes(kids.drop_first(), idx + 1, fc, t);
        if let Ok(c) = inject_with(c0, kids[0].children, fc, t) {
            if let Ok(rest) = inject_kids(kids.drop_first(), idx + 1, fc, t) {
                let ks = seq![c] + rest;
                assert(ks[0] == c);
                assert(ks.drop_first() =~= rest);
                assert(size(c) == 1 + sizes(c.children));
                assert(size(kids[0]) == 1 + sizes(kids[0].children));
                assert(sizes(ks) == size(ks[0]) + sizes(ks.drop_first()));
                assert(sizes(kids) == size(kids[0]) + sizes(kids.drop_first()));
            }
        }
    }
}

pub proof fn lemma_finalize_children(n: SNode, is_root: bool, t: STable)
    ensures
        finalize(n, is_root, t) matches Ok(f) ==> f.children == n.children && f.itype == n.itype
            && f.name == n.name,
{
}

/// `transform_node`: helpers injected and sizes finalized, then each child
/// transformed again as a non-root node.
pub open spec fn tnode(n: SNode, is_root: bool, t: STable) -> Result<SNode, SHalt>
    decreases size(n), 1int,
{
    match inject(n, None, t) {
        Ok(m) => match finalize(m, is_root, t) {
            Ok(f) => {
                proof {
                    lemma_inject_with_sizes(n, n.children, None, t);
                    lemma_finalize_children(m, is_root, t);
                }
                match tkids(f.children, t) {
                    Ok(ks) => Ok(SNode { children: ks, ..f }),
                    Err(e) => Err(e),
                }
            },
            Err(e) => Err(e),
        },
        Err(e) => Err(e),
    }
}

pub open spec fn tkids(kids: Seq<SNode>, t: STable) -> Result<Seq<SNode>, SHalt>
    decreases sizes(kids), 2int,
{
    if kids.len() == 0 {
        Ok(Seq::empty())
    } else {
        proof {
            lemma_sizes_elem(kids, 0);
        }
        match tnode(kids[0], false, t) {
            Ok(c) => match tkids(kids.drop_first(), t) {
                Ok(rest) => Ok(seq![c] + rest),
                Err(e) => Err(e),
            },
            Err(e) => Err(e),
        }
    }
}

/// The layout transform of a whole tree.
pub open spec fn transform_spec(n: SNode, t: STable) -> Result<SNode, SHalt> {
    tnode(n, true, t)
}

} // verus!

verus! {

fn transform_node(node: LuauNode, is_root: bool, t: &NumTable) -> (r: Result<LuauNode, Halt>)
    ensures
        fresh_err(t@, r),
        resv(r) == tnode(node@, is_root, t@),
    decreases size(node@), 1int,
{
    let ghost n0 = node@;
    let m = inject_helpers(node, None, t)?;
    let ghost m0 = m@;
    let mut f = m;
    finalize_properties(&mut f, is_root, t)?;
    proof {
        lemma_inject_with_sizes(n0, n0.children, None, t@);
        lemma_finalize_children(m0, is_root, t@);
    }
    let ghost f0 = f@;
    let mut kids: Vec<LuauNode> = Vec::new();
    std::mem::swap(&mut kids, &mut f.children);
    assert(nviews(kids@) == f0.children);
    let ks = tkids_v(kids, t)?;
    f.children = ks;
    assert(f@ == SNode { children: nviews(ks@), ..f0 });
    Ok(f)
}

fn tkids_v(kids: Vec<LuauNode>, t: &NumTable) -> (r: Result<Vec<LuauNode>, Halt>)
    ensures
        fresh_err(t@, r),
        match tkids(nviews(kids@), t@) {
            Ok(ks) => r matches Ok(v) && nviews(v@) == ks,
            Err(e) => r matches Err(h) && h@ == e,
        },
    decreases sizes(nviews(kids@)), 2int,
{
    let mut kids = kids;
    if kids.len() == 0 {
        assert(nviews(kids@) =~= Seq::<SNode>::empty());
        return Ok(Vec::new());
    }
    let ghost k0 = kids@;
    proof {
        lemma_nviews_first(k0);
        lemma_sizes_elem(nviews(k0), 0);
    }
    let first = kids.remove(0);
    assert(nview(first) == nviews(k0)[0]);
    let c = transform_node(first, false, t)?;
    proof {
        assert(nviews(kids@) == nviews(k0).drop_first());
    }
    let mut rest = tkids_v(kids, t)?;
    let ghost r0 = rest@;
    rest.insert(0, c);
    proof {
        lemma_nviews_insert0(r0, c);
    }
    Ok(rest)
}

/// Injects layout helpers into the whole tree and finalizes each node's size.
pub fn transform(node: LuauNode, t: &NumTable) -> (r: Result<LuauNode, Halt>)
    ensures
        fresh_err(t@, r),
        resv(r) == transform_spec(node@, t@),
{
    transform_node(node, true, t)
}


proof fn lemma_inject_with_shape(n: SNode, kids: Seq<SNode>, pfc: Option<bool>, t: STable)
    ensures
        inject_with(n, kids, pfc, t) matches Ok(m) ==> m.itype == n.itype && m.name == n.name
            && same_kids(kids, m.children),
    decreases kids, 1int,
{
    lemma_own_steps_children(n, pfc, t);
    if let Ok((m, fc)) = own_steps(n, pfc, t) {
        lemma_inject_kids_shape(kids, 0, fc, t);
    }
}

proof fn lemma_inject_kids_shape(kids: Seq<SNode>, idx: nat, fc: Option<bool>, t: STable)
    ensures
        inject_kids(kids, idx, fc, t) matches Ok(ks) ==> same_kids(kids, ks),
    decreases kids, 0int,
{
    if kids.len() > 0 {
        let c0 = kid_prep(kids[0], idx, fc);
        lemma_inject_with_shape(c0, kids[0].children, fc, t);
        lemma_inject_kids_shape(kids.drop_first(), idx + 1, fc, t);
        if let Ok(c) = inject_with(c0, kids[0].children, fc, t) {
            if let Ok(rest) = inject_kids(kids.drop_first(), idx + 1, fc, t) {
                let ks = seq![c] + rest;
                assert(c0.itype == kids[0].itype && c0.name == kids[0].name);
                assert(c0.children == kids[0].children);
                assert(same_shape(kids[0], c));
                assert(ks[0] == c);
                assert(ks.drop_first() =~= rest);
            }
        }
    }
}

proof fn lemma_tnode_shape(n: SNode, is_root: bool, t: STable)
    ensures
        tnode(n, is_root, t) matches Ok(r) ==> same_shape(n, r),
    decreases size(n), 1int,
{
    lemma_inject_with_shape(n, n.children, None, t);
    lemma_inject_with_sizes(n, n.children, None, t);
    if let Ok(m) = inject(n, None, t) {
        lemma_finalize_children(m, is_root, t);
        if let Ok(f) = finalize(m, is_root, t) {
            lemma_tkids_shape(f.children, t);
            if let Ok(ks) = tkids(f.children, t) {
                lemma_kids_trans(n.children, f.children, ks);
            }
        }
    }
}

proof fn lemma_tkids_shape(kids: Seq<SNode>, t: STable)
    ensures
        tkids(kids, t) matches Ok(ks) ==> same_kids(kids, ks),
    decreases sizes(kids), 2int,
{
    if kids.len() > 0 {
        lemma_sizes_elem(kids, 0);
        lemma_tnode_shape(kids[0], false, t);
        lemma_tkids_shape(kids.drop_first(), t);
        if let Ok(c) = tnode(kids[0], false, t) {
            if let Ok(rest) = tkids(kids.drop_first(), t) {
                let ks = seq![c] + rest;
                assert(ks[0] == c);
                assert(ks.drop_first() =~= rest);
            }
        }
    }
}

/// The layout transform adds helpers and properties only: every node keeps
/// its class, its name and its children.
pub proof fn law_transform_keeps_shape(n: SNode, t: STable)
    ensures
        transform_spec(n, t) matches Ok(m) ==> same_shape(n, m),
{
    lemma_tnode_shape(n, true, t);
}



/// No node of the tree keeps a `SizeX` or `SizeY` property.
pub open spec fn axes_gone(n: SNode) -> bool
    decreases n,
{
    !phas(n.props, "SizeX"@) && !phas(n.props, "SizeY"@) && kids_axes_gone(n.children)
}

pub open spec fn kids_axes_gone(ks: Seq<SNode>) -> bool
    decreases ks,
{
    ks.len() == 0 || (axes_gone(ks[0]) && kids_axes_gone(ks.drop_first()))
}

proof fn lemma_size_names()
    ensures
        "Size"@ != "SizeX"@,
        "Size"@ != "SizeY"@,
        "SizeX"@ != "SizeY"@,
{
    reveal_strlit("Size");
    reveal_strlit("SizeX");
    reveal_strlit("SizeY");
    assert("Size"@.len() != "SizeX"@.len());
    assert("Size"@.len() != "SizeY"@.len());
    assert("SizeX"@[4] != "SizeY"@[4]);
}

proof fn lemma_finalize_axes(n: SNode, is_root: bool, t: STable)
    ensures
        finalize(n, is_root, t) matches Ok(f) ==> !phas(f.props, "SizeX"@) && !phas(
            f.props,
            "SizeY"@,
        ) && (is_root ==> phas(f.props, "Size"@)),
{
    lemma_size_names();
    let p = n.props;
    match size_of_props(p, t) {
        Ok(Some(sz)) => {
            let a = pinsert(p, "Size"@, sz);
            let b = premove(a, "SizeX"@);
            law_get_after_insert(p, "Size"@, sz, "SizeX"@);
            law_get_after_remove(a, "SizeX"@, "Size"@);
            law_get_after_remove(a, "SizeX"@, "SizeY"@);
            law_get_after_remove(b, "SizeY"@, "Size"@);
            law_get_after_remove(b, "SizeY"@, "SizeX"@);
        },
        Ok(None) => {
            if is_root {
                let v = "UDim2.new(1, 0, 1, 0)"@;
                law_get_after_insert(p, "Size"@, v, "SizeX"@);
                law_get_after_insert(p, "Size"@, v, "SizeY"@);
            }
        },
        Err(_) => {},
    }
}

proof fn lemma_tnode_axes(n: SNode, is_root: bool, t: STable)
    ensures
        tnode(n, is_root, t) matches Ok(r) ==> axes_gone(r) && (is_root ==> phas(
            r.props,
            "Size"@,
        )),
    decreases size(n), 1int,
{
    lemma_inject_with_sizes(n, n.children, None, t);
    if let Ok(m) = inject(n, None, t) {
        lemma_finalize_children(m, is_root, t);
        lemma_finalize_axes(m, is_root, t);
        if let Ok(f) = finalize(m, is_root, t) {
            lemma_tkids_axes(f.children, t);
        }
    }
}

proof fn lemma_tkids_axes(kids: Seq<SNode>, t: STable)
    ensures
        tkids(kids, t) matches Ok(ks) ==> kids_axes_gone(ks),
    decreases sizes(kids), 2int,
{
    if kids.len() > 0 {
        lemma_sizes_elem(kids, 0);
        lemma_tnode_axes(kids[0], false, t);
        lemma_tkids_axes(kids.drop_first(), t);
        if let Ok(c) = tnode(kids[0], false, t) {
            if let Ok(rest) = tkids(kids.drop_first(), t) {
                let ks = seq![c] + rest;
                assert(ks[0] == c);
                assert(ks.drop_first() =~= rest);
            }
        }
    }
}

/// After the layout transform no node keeps a `SizeX` or `SizeY` property:
/// each is folded into `Size`; and the root has a `Size`.
pub proof fn law_transform_folds_sizes(n: SNode, t: STable)
    ensures
        transform_spec(n, t) matches Ok(m) ==> axes_gone(m) && phas(m.props, "Size"@),
{
    lemma_tnode_axes(n, true, t);
}


/// `b` is `a` with new helpers in front: same class, name, source tag and
/// children, and `a`'s helpers are the tail of `b`'s.
pub open spec fn in_front(a: SNode, b: SNode) -> bool {
    &&& b.itype == a.itype
    &&& b.name == a.name
    &&& b.source_tag == a.source_tag
    &&& b.children == a.children
    &&& a.helpers.len() <= b.helpers.len()
    &&& b.helpers.skip(b.helpers.len() - a.helpers.len()) == a.helpers
}

proof fn lemma_in_front_refl(a: SNode)
    ensures
        in_front(a, a),
{
    assert(a.helpers.skip(0) =~= a.helpers);
}

proof fn lemma_in_front_props(a: SNode, p: SProps)
    ensures
        in_front(a, with_props(a, p)),
{
    assert(a.helpers.skip(0) =~= a.helpers);
}

proof fn lemma_in_front_helper(a: SNode, h: SNode)
    ensures
        in_front(a, front_helper(a, h)),
{
    let b = front_helper(a, h);
    assert(b.helpers.skip(b.helpers.len() - a.helpers.len()) =~= a.helpers);
}

proof fn lemma_in_front_trans(a: SNode, b: SNode, c: SNode)
    requires
        in_front(a, b),
        in_front(b, c),
    ensures
        in_front(a, c),
{
    let (la, lb, lc) = (a.helpers.len(), b.helpers.len(), c.helpers.len());
    assert(c.helpers.skip(lc - la) =~= c.helpers.skip(lc - lb).skip(lb - la));
}

proof fn lemma_own_steps_in_front(n: SNode, pfc: Option<bool>, t: STable)
    ensures
        own_steps(n, pfc, t) matches Ok((m, _)) ==> in_front(n, m),
{
    let n1 = auto_step(n, pfc);
    lemma_in_front_refl(n);
    lemma_in_front_props(n, n1.props);
    if let Ok(n2) = padding_step(n1, t) {
        let p = n1.props;
        lemma_in_front_props(n1, without_padding(p));
        if has_padding(p) {
            if let Ok(h) = padding_node(
                pad_side(p, "PaddingLeft"@, (match pget(p, "Padding"@) {
                    Some(v) => pad4(v),
                    None => seq!["0"@, "0"@, "0"@, "0"@],
                })[0]),
                pad_side(p, "PaddingRight"@, (match pget(p, "Padding"@) {
                    Some(v) => pad4(v),
                    None => seq!["0"@, "0"@, "0"@, "0"@],
                })[1]),
                pad_side(p, "PaddingTop"@, (match pget(p, "Padding"@) {
                    Some(v) => pad4(v),
                    None => seq!["0"@, "0"@, "0"@, "0"@],
                })[2]),
                pad_side(p, "PaddingBottom"@, (match pget(p, "Padding"@) {
                    Some(v) => pad4(v),
                    None => seq!["0"@, "0"@, "0"@, "0"@],
                })[3]),
                t,
            ) {
                lemma_in_front_helper(with_props(n1, without_padding(p)), h);
                lemma_in_front_trans(n1, with_props(n1, without_padding(p)), n2);
            }
        }
        lemma_in_front_trans(n, n1, n2);
        if let Ok(n3) = corner_step(n2, t) {
            if let Some(cr) = pget(n2.props, "CornerRadius"@) {
                let x = with_props(n2, premove(n2.props, "CornerRadius"@));
                lemma_in_front_props(n2, premove(n2.props, "CornerRadius"@));
                if let Ok(c) = corner(cr, t) {
                    lemma_in_front_helper(x, helper1("UICorner"@, "CornerRadius"@, c));
                    lemma_in_front_trans(n2, x, n3);
                }
            } else {
                lemma_in_front_refl(n2);
            }
            lemma_in_front_trans(n, n2, n3);
            let n4 = flex_step(n3);
            lemma_flex_in_front(n3);
            lemma_in_front_trans(n, n3, n4);
            let n5 = aspect_step(n4);
            lemma_aspect_in_front(n4);
            lemma_in_front_trans(n, n4, n5);
            lemma_display_in_front(n5, t);
            if let Ok(n6) = display_step(n5, t) {
                lemma_in_front_trans(n, n5, n6);
                lemma_gradient_in_front(n6, t);
                if let Ok(n7) = gradient_step(n6, t) {
                    lemma_in_front_trans(n, n6, n7);
                    lemma_stroke_in_front(n7, t);
                    if let Ok(n8) = stroke_step(n7, t) {
                        lemma_in_front_trans(n, n7, n8);
                        lemma_scale_in_front(n8);
                        lemma_in_front_trans(n, n8, scale_step(n8));
                    }
                }
            }
        }
    }
}

proof fn lemma_flex_in_front(n: SNode)
    ensures
        in_front(n, flex_step(n)),
{
    let p = n.props;
    if has_flex(p) {
        let p2 = premove(
            premove(premove(premove(premove(p, "LayoutGap"@), "FlexDirection"@), "display"@), "JustifyContent"@),
            "AlignItems"@,
        );
        lemma_in_front_props(n, p2);
        lemma_in_front_helper(with_props(n, p2), list_node(p));
        lemma_in_front_trans(n, with_props(n, p2), flex_step(n));
    } else {
        lemma_in_front_refl(n);
    }
}

proof fn lemma_aspect_in_front(n: SNode)
    ensures
        in_front(n, aspect_step(n)),
{
    if let Some(ar) = pget(n.props, "AspectRatio"@) {
        let x = with_props(n, premove(n.props, "AspectRatio"@));
        lemma_in_front_props(n, premove(n.props, "AspectRatio"@));
        lemma_in_front_helper(x, helper1("UIAspectRatioConstraint"@, "AspectRatio"@, ar));
        lemma_in_front_trans(n, x, aspect_step(n));
    } else {
        lemma_in_front_refl(n);
    }
}

proof fn lemma_plain_in_front(n: SNode, d: Option<Seq<char>>, w: Seq<char>, it: Seq<char>)
    ensures
        in_front(n, plain_layout_step(n, d, w, it)),
{
    if display_is(d, w) {
        let x = with_props(n, without_display(n.props));
        lemma_in_front_props(n, without_display(n.props));
        lemma_in_front_helper(x, helper(it));
        lemma_in_front_trans(n, x, plain_layout_step(n, d, w, it));
    } else {
        lemma_in_front_refl(n);
    }
}

proof fn lemma_display_in_front(n: SNode, t: STable)
    ensures
        display_step(n, t) matches Ok(m) ==> in_front(n, m),
{
    let d = display_of(n.props);
    let r1 = if display_is(d, "grid"@) {
        grid_step(n, t)
    } else {
        Ok(n)
    };
    lemma_in_front_refl(n);
    if display_is(d, "grid"@) {
        if let Ok(g) = grid_step(n, t) {
            let p = n.props;
            if let (Ok(cs), Ok(cp)) = (cell_size(p, t), cell_padding(p, t)) {
                let p1 = if cs is Some {
                    premove(premove(p, "GridCellWidth"@), "GridCellHeight"@)
                } else {
                    p
                };
                let p2 = if cp is Some {
                    premove(p1, "GridPadding"@)
                } else {
                    p1
                };
                let x = with_props(n, without_display(p2));
                let m = insert_opt(insert_opt(Seq::empty(), "CellSize"@, cs), "CellPadding"@, cp);
                lemma_in_front_props(n, without_display(p2));
                lemma_in_front_helper(x, with_props(helper("UIGridLayout"@), m));
                lemma_in_front_trans(n, x, g);
            }
        }
    }
    if let Ok(n1) = r1 {
        let n2 = plain_layout_step(n1, d, "table"@, "UITableLayout"@);
        lemma_plain_in_front(n1, d, "table"@, "UITableLayout"@);
        lemma_plain_in_front(n2, d, "page"@, "UIPageLayout"@);
        lemma_in_front_trans(n, n1, n2);
        lemma_in_front_trans(n, n2, plain_layout_step(n2, d, "page"@, "UIPageLayout"@));
    }
}

proof fn lemma_gradient_in_front(n: SNode, t: STable)
    ensures
        gradient_step(n, t) matches Ok(m) ==> in_front(n, m),
{
    lemma_in_front_refl(n);
    if let Some(g) = pget(n.props, "Gradient"@) {
        if let Ok(m) = gradient_props(g, t) {
            let x = with_props(n, premove(n.props, "Gradient"@));
            lemma_in_front_props(n, premove(n.props, "Gradient"@));
            lemma_in_front_helper(x, with_props(helper("UIGradient"@), m));
            lemma_in_front_trans(n, x, front_helper(x, with_props(helper("UIGradient"@), m)));
        }
    }
}

proof fn lemma_stroke_in_front(n: SNode, t: STable)
    ensures
        stroke_step(n, t) matches Ok(m) ==> in_front(n, m),
{
    lemma_in_front_refl(n);
    if let Some(g) = pget(n.props, "UIStroke"@) {
        if let Ok(m) = stroke_props(g, t) {
            let x = with_props(n, premove(n.props, "UIStroke"@));
            lemma_in_front_props(n, premove(n.props, "UIStroke"@));
            lemma_in_front_helper(x, with_props(helper("UIStroke"@), m));
            lemma_in_front_trans(n, x, front_helper(x, with_props(helper("UIStroke"@), m)));
        }
    }
}

proof fn lemma_scale_in_front(n: SNode)
    ensures
        in_front(n, scale_step(n)),
{
    if let Some(s) = pget(n.props, "UIScale"@) {
        let x = with_props(n, premove(n.props, "UIScale"@));
        lemma_in_front_props(n, premove(n.props, "UIScale"@));
        lemma_in_front_helper(x, helper1("UIScale"@, "Scale"@, s));
        lemma_in_front_trans(n, x, scale_step(n));
    } else {
        lemma_in_front_refl(n);
    }
}

/// Helper injection keeps the node's class, name and source tag and the
/// shape of its children (each keeps its class and name); it only puts new
/// helpers in front of the ones the node had.
pub proof fn law_injection_prepends(n: SNode, pfc: Option<bool>, t: STable)
    ensures
        inject(n, pfc, t) matches Ok(m) ==> m.itype == n.itype && m.name == n.name
            && m.source_tag == n.source_tag && same_kids(n.children, m.children)
            && n.helpers.len() <= m.helpers.len() && m.helpers.skip(
            m.helpers.len() - n.helpers.len(),
        ) == n.helpers,
{
    lemma_own_steps_in_front(n, pfc, t);
    lemma_inject_with_shape(n, n.children, pfc, t);
}


/// The properties a node's own layout steps turn into helpers.
pub open spec fn consumed(k: Seq<char>) -> bool {
    ||| k == "Padding"@
    ||| k == "PaddingLeft"@
    ||| k == "PaddingRight"@
    ||| k == "PaddingTop"@
    ||| k == "PaddingBottom"@
    ||| k == "CornerRadius"@
    ||| k == "AspectRatio"@
    ||| k == "Gradient"@
    ||| k == "UIStroke"@
    ||| k == "UIScale"@
}

pub open spec fn none_consumed(p: SProps) -> bool {
    forall|k: Seq<char>| #[trigger] phas(p, k) ==> !consumed(k)
}

/// No node of the tree keeps a consumed property, and no node below the top
/// keeps `FlexGrow`.
pub open spec fn consumed_gone(n: SNode, top: bool) -> bool
    decreases n,
{
    none_consumed(n.props) && (!top ==> !phas(n.props, "FlexGrow"@)) && kids_consumed_gone(
        n.children,
    )
}

pub open spec fn kids_consumed_gone(ks: Seq<SNode>) -> bool
    decreases ks,
{
    ks.len() == 0 || (consumed_gone(ks[0], false) && kids_consumed_gone(ks.drop_first()))
}

/// Every key of `b` is a key of `a`.
pub open spec fn fewer(a: SProps, b: SProps) -> bool {
    forall|k: Seq<char>| #[trigger] phas(b, k) ==> phas(a, k)
}

proof fn lemma_premove_fewer(m: SProps, k: Seq<char>)
    ensures
        fewer(m, premove(m, k)),
        !phas(premove(m, k), k),
{
    law_get_after_remove(m, k, k);
    assert forall|k2: Seq<char>| #[trigger] phas(premove(m, k), k2) implies phas(m, k2) by {
        law_get_after_remove(m, k, k2);
    }
}

proof fn lemma_pinsert_adds(m: SProps, k: Seq<char>, v: Seq<char>, k2: Seq<char>)
    requires
        k2 != k,
    ensures
        phas(pinsert(m, k, v), k2) == phas(m, k2),
{
    law_get_after_insert(m, k, v, k2);
}

proof fn lemma_padding_consumed(n: SNode, t: STable)
    ensures
        padding_step(n, t) matches Ok(m) ==> fewer(n.props, m.props) && !phas(m.props, "Padding"@)
            && !phas(m.props, "PaddingLeft"@) && !phas(m.props, "PaddingRight"@) && !phas(
            m.props,
            "PaddingTop"@,
        ) && !phas(m.props, "PaddingBottom"@),
{
    let p = n.props;
    let a = premove(p, "Padding"@);
    let b = premove(a, "PaddingLeft"@);
    let c = premove(b, "PaddingRight"@);
    let d = premove(c, "PaddingTop"@);
    let e = premove(d, "PaddingBottom"@);
    lemma_premove_fewer(p, "Padding"@);
    lemma_premove_fewer(a, "PaddingLeft"@);
    lemma_premove_fewer(b, "PaddingRight"@);
    lemma_premove_fewer(c, "PaddingTop"@);
    lemma_premove_fewer(d, "PaddingBottom"@);
    assert(e == without_padding(p));
}

proof fn lemma_key_step(n: SNode, k: Seq<char>, m: SNode)
    requires
        pget(n.props, k) is Some ==> m.props == premove(n.props, k),
        pget(n.props, k) is None ==> m.props == n.props,
    ensures
        fewer(n.props, m.props),
        !phas(m.props, k),
{
    lemma_premove_fewer(n.props, k);
}

proof fn lemma_display_fewer(n: SNode, t: STable)
    ensures
        display_step(n, t) matches Ok(m) ==> fewer(n.props, m.props),
{
    let p = n.props;
    let d = display_of(p);
    let r1 = if display_is(d, "grid"@) {
        grid_step(n, t)
    } else {
        Ok(n)
    };
    if display_is(d, "grid"@) {
        if let (Ok(cs), Ok(cp)) = (cell_size(p, t), cell_padding(p, t)) {
            lemma_premove_fewer(p, "GridCellWidth"@);
            lemma_premove_fewer(premove(p, "GridCellWidth"@), "GridCellHeight"@);
            let p1 = if cs is Some {
                premove(premove(p, "GridCellWidth"@), "GridCellHeight"@)
            } else {
                p
            };
            lemma_premove_fewer(p1, "GridPadding"@);
            let p2 = if cp is Some {
                premove(p1, "GridPadding"@)
            } else {
                p1
            };
            lemma_premove_fewer(p2, "Display"@);
            lemma_premove_fewer(premove(p2, "Display"@), "display"@);
        }
    }
    if let Ok(n1) = r1 {
        let q = n1.props;
        lemma_premove_fewer(q, "Display"@);
        lemma_premove_fewer(premove(q, "Display"@), "display"@);
        let n2 = plain_layout_step(n1, d, "table"@, "UITableLayout"@);
        lemma_premove_fewer(n2.props, "Display"@);
        lemma_premove_fewer(premove(n2.props, "Display"@), "display"@);
    }
}

proof fn lemma_flex_fewer(n: SNode)
    ensures
        fewer(n.props, flex_step(n).props),
{
    let p = n.props;
    let a = premove(p, "LayoutGap"@);
    let b = premove(a, "FlexDirection"@);
    let c = premove(b, "display"@);
    let d = premove(c, "JustifyContent"@);
    lemma_premove_fewer(p, "LayoutGap"@);
    lemma_premove_fewer(a, "FlexDirection"@);
    lemma_premove_fewer(b, "display"@);
    lemma_premove_fewer(c, "JustifyContent"@);
    lemma_premove_fewer(d, "AlignItems"@);
}

proof fn lemma_own_steps_consumed(n: SNode, pfc: Option<bool>, t: STable)
    ensures
        own_steps(n, pfc, t) matches Ok((m, _)) ==> none_consumed(m.props) && (!phas(
            n.props,
            "FlexGrow"@,
        ) ==> !phas(m.props, "FlexGrow"@)),
{
    let n1 = auto_step(n, pfc);
    reveal_strlit("AutomaticSize");
    reveal_strlit("FlexGrow");
    assert("AutomaticSize"@.len() != "FlexGrow"@.len());
    if let Some(col) = pfc {
        if !phas(n.props, "SizeX"@) && !phas(n.props, "SizeY"@) {
            lemma_pinsert_adds(
                n.props,
                "AutomaticSize"@,
                if col {
                    "Enum.AutomaticSize.Y"@
                } else {
                    "Enum.AutomaticSize.X"@
                },
                "FlexGrow"@,
            );
        }
    }
    assert(!phas(n.props, "FlexGrow"@) ==> !phas(n1.props, "FlexGrow"@));
    lemma_padding_consumed(n1, t);
    if let Ok(n2) = padding_step(n1, t) {
        if let Ok(n3) = corner_step(n2, t) {
            lemma_key_step(n2, "CornerRadius"@, n3);
            let n4 = flex_step(n3);
            lemma_flex_fewer(n3);
            let n5 = aspect_step(n4);
            lemma_key_step(n4, "AspectRatio"@, n5);
            lemma_display_fewer(n5, t);
            if let Ok(n6) = display_step(n5, t) {
                if let Ok(n7) = gradient_step(n6, t) {
                    lemma_key_step(n6, "Gradient"@, n7);
                    if let Ok(n8) = stroke_step(n7, t) {
                        lemma_key_step(n7, "UIStroke"@, n8);
                        let n9 = scale_step(n8);
                        lemma_key_step(n8, "UIScale"@, n9);
                        assert forall|k: Seq<char>| #[trigger] phas(n9.props, k) implies !consumed(
                            k,
                        ) by {
                            assert(phas(n8.props, k));
                            assert(phas(n7.props, k));
                            assert(phas(n6.props, k));
                            assert(phas(n5.props, k));
                            assert(phas(n4.props, k));
                            assert(phas(n3.props, k));
                            assert(phas(n2.props, k));
                        }
                        assert(phas(n9.props, "FlexGrow"@) ==> phas(n1.props, "FlexGrow"@)) by {
                            if phas(n9.props, "FlexGrow"@) {
                                assert(phas(n8.props, "FlexGrow"@));
                                assert(phas(n7.props, "FlexGrow"@));
                                assert(phas(n6.props, "FlexGrow"@));
                                assert(phas(n5.props, "FlexGrow"@));
                                assert(phas(n4.props, "FlexGrow"@));
                                assert(phas(n3.props, "FlexGrow"@));
                                assert(phas(n2.props, "FlexGrow"@));
                            }
                        }
                    }
                }
            }
        }
    }
}

proof fn lemma_kid_prep_no_grow(c: SNode, idx: nat, fc: Option<bool>)
    ensures
        !phas(kid_prep(c, idx, fc).props, "FlexGrow"@),
{
    reveal_strlit("AutomaticSize");
    reveal_strlit("LayoutOrder");
    reveal_strlit("FlexGrow");
    assert("AutomaticSize"@.len() != "FlexGrow"@.len());
    assert("LayoutOrder"@.len() != "FlexGrow"@.len());
    let c1 = match pget(c.props, "FlexGrow"@) {
        Some(fg) => {
            let c0 = if fg == "1"@ {
                front_helper(c, helper1("UIFlexItem"@, "FlexMode"@, "Fill"@))
            } else {
                c
            };
            lemma_premove_fewer(c0.props, "FlexGrow"@);
            with_props(c0, premove(c0.props, "FlexGrow"@))
        },
        None => c,
    };
    assert(!phas(c1.props, "FlexGrow"@));
    if let Some(col) = fc {
        let v = if col {
            "Enum.AutomaticSize.Y"@
        } else {
            "Enum.AutomaticSize.X"@
        };
        lemma_pinsert_adds(c1.props, "AutomaticSize"@, v, "FlexGrow"@);
        let c2 = if !phas(c1.props, "SizeX"@) && !phas(c1.props, "SizeY"@) && sizable(
            lower(c1.itype),
        ) {
            with_props(c1, pinsert(c1.props, "AutomaticSize"@, v))
        } else {
            c1
        };
        lemma_pinsert_adds(c2.props, "LayoutOrder"@, dec(idx + 1), "FlexGrow"@);
    }
}

proof fn lemma_inject_with_consumed(n: SNode, kids: Seq<SNode>, pfc: Option<bool>, t: STable)
    ensures
        inject_with(n, kids, pfc, t) matches Ok(m) ==> none_consumed(m.props) && kids_consumed_gone(
            m.children,
        ) && (!phas(n.props, "FlexGrow"@) ==> !phas(m.props, "FlexGrow"@)),
    decreases kids, 1int,
{
    lemma_own_steps_consumed(n, pfc, t);
    if let Ok((m, fc)) = own_steps(n, pfc, t) {
        lemma_inject_kids_consumed(kids, 0, fc, t);
    }
}

proof fn lemma_inject_kids_consumed(kids: Seq<SNode>, idx: nat, fc: Option<bool>, t: STable)
    ensures
        inject_kids(kids, idx, fc, t) matches Ok(ks) ==> kids_consumed_gone(ks),
    decreases kids, 0int,
{
    if kids.len() > 0 {
        let c0 = kid_prep(kids[0], idx, fc);
        lemma_kid_prep_no_grow(kids[0], idx, fc);
        lemma_inject_with_consumed(c0, kids[0].children, fc, t);
        lemma_inject_kids_consumed(kids.drop_first(), idx + 1, fc, t);
        if let Ok(c) = inject_with(c0, kids[0].children, fc, t) {
            if let Ok(rest) = inject_kids(kids.drop_first(), idx + 1, fc, t) {
                let ks = seq![c] + rest;
                assert(ks[0] == c);
                assert(ks.drop_first() =~= rest);
                assert(consumed_gone(c, false));
            }
        }
    }
}

/// Helper injection consumes what it turns into helpers: no node of the
/// result keeps a padding property, `CornerRadius`, `AspectRatio`,
/// `Gradient`, `UIStroke` or `UIScale`, and no node below the top keeps
/// `FlexGrow`.
pub proof fn law_injection_consumes(n: SNode, pfc: Option<bool>, t: STable)
    ensures
        inject(n, pfc, t) matches Ok(m) ==> consumed_gone(m, true),
{
    lemma_inject_with_consumed(n, n.children, pfc, t);
}


proof fn lemma_flex_keys_apart(k: Seq<char>)
    requires
        k == "AutomaticSize"@ || k == "Padding"@ || k == "PaddingLeft"@ || k == "PaddingRight"@
            || k == "PaddingTop"@ || k == "PaddingBottom"@ || k == "CornerRadius"@,
    ensures
        k != "FlexDirection"@,
        k != "display"@,
{
    reveal_strlit("AutomaticSize");
    reveal_strlit("Padding");
    reveal_strlit("PaddingLeft");
    reveal_strlit("PaddingRight");
    reveal_strlit("PaddingTop");
    reveal_strlit("PaddingBottom");
    reveal_strlit("CornerRadius");
    reveal_strlit("FlexDirection");
    reveal_strlit("display");
    assert(k[0] != "FlexDirection"@[0]);
    assert(k[0] != "display"@[0]);
}

proof fn lemma_flex_src_kept(n: SNode, pfc: Option<bool>, t: STable)
    ensures
        padding_step(auto_step(n, pfc), t) matches Ok(n2) ==> (corner_step(n2, t) matches Ok(n3)
            ==> flex_src(n3.props) == flex_src(n.props)),
{
    let fd = "FlexDirection"@;
    let dp = "display"@;
    let n1 = auto_step(n, pfc);
    if let Some(col) = pfc {
        let v = if col {
            "Enum.AutomaticSize.Y"@
        } else {
            "Enum.AutomaticSize.X"@
        };
        lemma_flex_keys_apart("AutomaticSize"@);
        law_get_after_insert(n.props, "AutomaticSize"@, v, fd);
        law_get_after_insert(n.props, "AutomaticSize"@, v, dp);
    }
    assert(pget(n1.props, fd) == pget(n.props, fd) && pget(n1.props, dp) == pget(n.props, dp));
    if let Ok(n2) = padding_step(n1, t) {
        let p = n1.props;
        let a = premove(p, "Padding"@);
        let b = premove(a, "PaddingLeft"@);
        let c = premove(b, "PaddingRight"@);
        let d = premove(c, "PaddingTop"@);
        lemma_flex_keys_apart("Padding"@);
        lemma_flex_keys_apart("PaddingLeft"@);
        lemma_flex_keys_apart("PaddingRight"@);
        lemma_flex_keys_apart("PaddingTop"@);
        lemma_flex_keys_apart("PaddingBottom"@);
        law_get_after_remove(p, "Padding"@, fd);
        law_get_after_remove(a, "PaddingLeft"@, fd);
        law_get_after_remove(b, "PaddingRight"@, fd);
        law_get_after_remove(c, "PaddingTop"@, fd);
        law_get_after_remove(d, "PaddingBottom"@, fd);
        law_get_after_remove(p, "Padding"@, dp);
        law_get_after_remove(a, "PaddingLeft"@, dp);
        law_get_after_remove(b, "PaddingRight"@, dp);
        law_get_after_remove(c, "PaddingTop"@, dp);
        law_get_after_remove(d, "PaddingBottom"@, dp);
        assert(n2.props == without_padding(p));
        if let Ok(n3) = corner_step(n2, t) {
            lemma_flex_keys_apart("CornerRadius"@);
            law_get_after_remove(n2.props, "CornerRadius"@, fd);
            law_get_after_remove(n2.props, "CornerRadius"@, dp);
        }
    }
}

/// A flex container (its `FlexDirection`, else its `display`, holds `flex` or
/// is `row` or `column` in any ASCII case) gets a `UIListLayout` helper and
/// loses `FlexDirection`, `display`, `JustifyContent`, `AlignItems` and
/// `LayoutGap`.
pub proof fn law_flex_container_gets_list(n: SNode, pfc: Option<bool>, t: STable)
    ensures
        inject(n, pfc, t) matches Ok(m) ==> (has_flex(n.props) ==> (exists|i: int|
            0 <= i < m.helpers.len() && #[trigger] m.helpers[i].itype == "UIListLayout"@)
            && !phas(m.props, "FlexDirection"@) && !phas(m.props, "display"@) && !phas(
            m.props,
            "JustifyContent"@,
        ) && !phas(m.props, "AlignItems"@) && !phas(m.props, "LayoutGap"@)),
{
    lemma_flex_src_kept(n, pfc, t);
    let n1 = auto_step(n, pfc);
    if let Ok(n2) = padding_step(n1, t) {
        if let Ok(n3) = corner_step(n2, t) {
            let p = n3.props;
            let n4 = flex_step(n3);
            if has_flex(n.props) {
                let a = premove(p, "LayoutGap"@);
                let b = premove(a, "FlexDirection"@);
                let c = premove(b, "display"@);
                let d = premove(c, "JustifyContent"@);
                lemma_premove_fewer(p, "LayoutGap"@);
                lemma_premove_fewer(a, "FlexDirection"@);
                lemma_premove_fewer(b, "display"@);
                lemma_premove_fewer(c, "JustifyContent"@);
                lemma_premove_fewer(d, "AlignItems"@);
                let n5 = aspect_step(n4);
                lemma_key_step(n4, "AspectRatio"@, n5);
                lemma_aspect_in_front(n4);
                lemma_display_fewer(n5, t);
                lemma_display_in_front(n5, t);
                if let Ok(n6) = display_step(n5, t) {
                    lemma_in_front_trans(n4, n5, n6);
                    lemma_gradient_in_front(n6, t);
                    if let Ok(n7) = gradient_step(n6, t) {
                        lemma_key_step(n6, "Gradient"@, n7);
                        lemma_in_front_trans(n4, n6, n7);
                        lemma_stroke_in_front(n7, t);
                        if let Ok(n8) = stroke_step(n7, t) {
                            lemma_key_step(n7, "UIStroke"@, n8);
                            lemma_in_front_trans(n4, n7, n8);
                            let n9 = scale_step(n8);
                            lemma_key_step(n8, "UIScale"@, n9);
                            lemma_scale_in_front(n8);
                            lemma_in_front_trans(n4, n8, n9);
                            let j = n9.helpers.len() - n4.helpers.len();
                            assert(n9.helpers.skip(j)[0] == n9.helpers[j]);
                            assert(n4.helpers[0] == list_node(p));
                            assert(n9.helpers[j].itype == "UIListLayout"@);
                            assert forall|k: Seq<char>|
                                phas(n9.props, k) implies #[trigger] phas(n4.props, k) by {
                                assert(phas(n8.props, k));
                                assert(phas(n7.props, k));
                                assert(phas(n6.props, k));
                                assert(phas(n5.props, k));
                            }
                            assert(own_steps(n, pfc, t) == Ok::<(SNode, Option<bool>), SHalt>(
                                (n9, flex_column(p)),
                            ));
                            if let Ok(m) = inject(n, pfc, t) {
                                assert(m.helpers == n9.helpers);
                                assert(m.props == n9.props);
                                assert(m.helpers[j].itype == "UIListLayout"@);
                            }
                        }
                    }
                }
            }
        }
    }
}


/// The helpers `b` has in front of those of `a`.
pub open spec fn added(a: SNode, b: SNode) -> Seq<SNode> {
    b.helpers.take(b.helpers.len() - a.helpers.len())
}

/// No two of the helpers have the same class.
pub open spec fn kinds_once(hs: Seq<SNode>) -> bool {
    forall|i: int, j: int| 0 <= i < j < hs.len() ==> #[trigger] hs[i].itype != #[trigger] hs[j].itype
}

/// `b` is `a`, or `a` with one helper of class `k` in front.
pub open spec fn adds_one(a: SNode, b: SNode, k: Seq<char>) -> bool {
    &&& in_front(a, b)
    &&& added(a, b).len() <= 1
    &&& added(a, b).len() == 1 ==> added(a, b)[0].itype == k
}

proof fn lemma_adds_none(a: SNode, p: SProps, k: Seq<char>)
    ensures
        adds_one(a, with_props(a, p), k),
        adds_one(a, a, k),
{
    lemma_in_front_props(a, p);
    lemma_in_front_refl(a);
}

proof fn lemma_adds_front(a: SNode, p: SProps, h: SNode)
    ensures
        adds_one(a, front_helper(with_props(a, p), h), h.itype),
{
    let x = with_props(a, p);
    lemma_in_front_props(a, p);
    lemma_in_front_helper(x, h);
    lemma_in_front_trans(a, x, front_helper(x, h));
    assert(added(a, front_helper(x, h)) =~= seq![h]);
}

proof fn lemma_add_kind(a: SNode, b: SNode, c: SNode, ks: Set<Seq<char>>, k: Seq<char>)
    requires
        in_front(a, b),
        kinds_once(added(a, b)),
        forall|i: int| 0 <= i < added(a, b).len() ==> ks.contains(#[trigger] added(a, b)[i].itype),
        !ks.contains(k),
        adds_one(b, c, k),
    ensures
        in_front(a, c),
        kinds_once(added(a, c)),
        forall|i: int|
            0 <= i < added(a, c).len() ==> ks.insert(k).contains(#[trigger] added(a, c)[i].itype),
{
    lemma_in_front_trans(a, b, c);
    let ab = added(a, b);
    let bc = added(b, c);
    assert(added(a, c) =~= bc + ab);
    assert forall|i: int| 0 <= i < added(a, c).len() implies ks.insert(k).contains(
        #[trigger] added(a, c)[i].itype,
    ) by {
        if i >= bc.len() {
            assert(added(a, c)[i] == ab[i - bc.len()]);
        }
    }
    assert forall|i: int, j: int| 0 <= i < j < added(a, c).len() implies #[trigger] added(
        a,
        c,
    )[i].itype != #[trigger] added(a, c)[j].itype by {
        if j >= bc.len() {
            assert(added(a, c)[j] == ab[j - bc.len()]);
            if i >= bc.len() {
                assert(added(a, c)[i] == ab[i - bc.len()]);
            }
        }
    }
}

proof fn lemma_helper_kinds_apart()
    ensures
        "UIPadding"@ != "UICorner"@,
        "UIPadding"@ != "UIListLayout"@,
        "UIPadding"@ != "UIAspectRatioConstraint"@,
        "UIPadding"@ != "UIGridLayout"@,
        "UIPadding"@ != "UITableLayout"@,
        "UIPadding"@ != "UIPageLayout"@,
        "UIPadding"@ != "UIGradient"@,
        "UIPadding"@ != "UIStroke"@,
        "UIPadding"@ != "UIScale"@,
        "UICorner"@ != "UIListLayout"@,
        "UICorner"@ != "UIAspectRatioConstraint"@,
        "UICorner"@ != "UIGridLayout"@,
        "UICorner"@ != "UITableLayout"@,
        "UICorner"@ != "UIPageLayout"@,
        "UICorner"@ != "UIGradient"@,
        "UICorner"@ != "UIStroke"@,
        "UICorner"@ != "UIScale"@,
        "UIListLayout"@ != "UIAspectRatioConstraint"@,
        "UIListLayout"@ != "UIGridLayout"@,
        "UIListLayout"@ != "UITableLayout"@,
        "UIListLayout"@ != "UIPageLayout"@,
        "UIListLayout"@ != "UIGradient"@,
        "UIListLayout"@ != "UIStroke"@,
        "UIListLayout"@ != "UIScale"@,
        "UIAspectRatioConstraint"@ != "UIGridLayout"@,
        "UIAspectRatioConstraint"@ != "UITableLayout"@,
        "UIAspectRatioConstraint"@ != "UIPageLayout"@,
        "UIAspectRatioConstraint"@ != "UIGradient"@,
        "UIAspectRatioConstraint"@ != "UIStroke"@,
        "UIAspectRatioConstraint"@ != "UIScale"@,
        "UIGridLayout"@ != "UITableLayout"@,
        "UIGridLayout"@ != "UIPageLayout"@,
        "UIGridLayout"@ != "UIGradient"@,
        "UIGridLayout"@ != "UIStroke"@,
        "UIGridLayout"@ != "UIScale"@,
        "UITableLayout"@ != "UIPageLayout"@,
        "UITableLayout"@ != "UIGradient"@,
        "UITableLayout"@ != "UIStroke"@,
        "UITableLayout"@ != "UIScale"@,
        "UIPageLayout"@ != "UIGradient"@,
        "UIPageLayout"@ != "UIStroke"@,
        "UIPageLayout"@ != "UIScale"@,
        "UIGradient"@ != "UIStroke"@,
        "UIGradient"@ != "UIScale"@,
        "UIStroke"@ != "UIScale"@,
{
    reveal_strlit("UIPadding");
    reveal_strlit("UICorner");
    reveal_strlit("UIListLayout");
    reveal_strlit("UIAspectRatioConstraint");
    reveal_strlit("UIGridLayout");
    reveal_strlit("UITableLayout");
    reveal_strlit("UIPageLayout");
    reveal_strlit("UIGradient");
    reveal_strlit("UIStroke");
    reveal_strlit("UIScale");
    assert("UIPadding"@.len() != "UICorner"@.len());
    assert("UIPadding"@.len() != "UIListLayout"@.len());
    assert("UIPadding"@.len() != "UIAspectRatioConstraint"@.len());
    assert("UIPadding"@.len() != "UIGridLayout"@.len());
    assert("UIPadding"@.len() != "UITableLayout"@.len());
    assert("UIPadding"@.len() != "UIPageLayout"@.len());
    assert("UIPadding"@.len() != "UIGradient"@.len());
    assert("UIPadding"@.len() != "UIStroke"@.len());
    assert("UIPadding"@.len() != "UIScale"@.len());
    assert("UICorner"@.len() != "UIListLayout"@.len());
    assert("UICorner"@.len() != "UIAspectRatioConstraint"@.len());
    assert("UICorner"@.len() != "UIGridLayout"@.len());
    assert("UICorner"@.len() != "UITableLayout"@.len());
    assert("UICorner"@.len() != "UIPageLayout"@.len());
    assert("UICorner"@.len() != "UIGradient"@.len());
    assert("UICorner"@[2] != "UIStroke"@[2]);
    assert("UICorner"@.len() != "UIScale"@.len());
    assert("UIListLayout"@.len() != "UIAspectRatioConstraint"@.len());
    assert("UIListLayout"@[2] != "UIGridLayout"@[2]);
    assert("UIListLayout"@.len() != "UITableLayout"@.len());
    assert("UIListLayout"@[2] != "UIPageLayout"@[2]);
    assert("UIListLayout"@.len() != "UIGradient"@.len());
    assert("UIListLayout"@.len() != "UIStroke"@.len());
    assert("UIListLayout"@.len() != "UIScale"@.len());
    assert("UIAspectRatioConstraint"@.len() != "UIGridLayout"@.len());
    assert("UIAspectRatioConstraint"@.len() != "UITableLayout"@.len());
    assert("UIAspectRatioConstraint"@.len() != "UIPageLayout"@.len());
    assert("UIAspectRatioConstraint"@.len() != "UIGradient"@.len());
    assert("UIAspectRatioConstraint"@.len() != "UIStroke"@.len());
    assert("UIAspectRatioConstraint"@.len() != "UIScale"@.len());
    assert("UIGridLayout"@.len() != "UITableLayout"@.len());
    assert("UIGridLayout"@[2] != "UIPageLayout"@[2]);
    assert("UIGridLayout"@.len() != "UIGradient"@.len());
    assert("UIGridLayout"@.len() != "UIStroke"@.len());
    assert("UIGridLayout"@.len() != "UIScale"@.len());
    assert("UITableLayout"@.len() != "UIPageLayout"@.len());
    assert("UITableLayout"@.len() != "UIGradient"@.len());
    assert("UITableLayout"@.len() != "UIStroke"@.len());
    assert("UITableLayout"@.len() != "UIScale"@.len());
    assert("UIPageLayout"@.len() != "UIGradient"@.len());
    assert("UIPageLayout"@.len() != "UIStroke"@.len());
    assert("UIPageLayout"@.len() != "UIScale"@.len());
    assert("UIGradient"@.len() != "UIStroke"@.len());
    assert("UIGradient"@.len() != "UIScale"@.len());
    assert("UIStroke"@.len() != "UIScale"@.len());
}

/// Helper injection puts at most one helper of each class in front of the
/// node's own helpers.
pub proof fn law_injection_adds_each_kind_once(n: SNode, pfc: Option<bool>, t: STable)
    ensures
        inject(n, pfc, t) matches Ok(m) ==> kinds_once(added(n, m)),
{
    lemma_helper_kinds_apart();
    let e = Set::<Seq<char>>::empty();
    let n1 = auto_step(n, pfc);
    lemma_adds_none(n, n1.props, "UIPadding"@);
    lemma_in_front_props(n, n1.props);
    assert(added(n, n1) =~= Seq::<SNode>::empty());
    if let Ok(n2) = padding_step(n1, t) {
        let p = n1.props;
        if has_padding(p) {
            let base = match pget(p, "Padding"@) {
                Some(v) => pad4(v),
                None => seq!["0"@, "0"@, "0"@, "0"@],
            };
            let l = pad_side(p, "PaddingLeft"@, base[0]);
            let r = pad_side(p, "PaddingRight"@, base[1]);
            let tp = pad_side(p, "PaddingTop"@, base[2]);
            let b = pad_side(p, "PaddingBottom"@, base[3]);
            if let Ok(h) = padding_node(l, r, tp, b, t) {
                lemma_padding_node_kind(l, r, tp, b, t);
                lemma_adds_front(n1, without_padding(p), h);
            }
        } else {
            lemma_adds_none(n1, without_padding(p), "UIPadding"@);
        }
        lemma_add_kind(n, n1, n2, e, "UIPadding"@);
        let s1 = e.insert("UIPadding"@);
        if let Ok(n3) = corner_step(n2, t) {
            if let Some(cr) = pget(n2.props, "CornerRadius"@) {
                if let Ok(c) = corner(cr, t) {
                    lemma_adds_front(
                        n2,
                        premove(n2.props, "CornerRadius"@),
                        helper1("UICorner"@, "CornerRadius"@, c),
                    );
                }
            } else {
                lemma_adds_none(n2, n2.props, "UICorner"@);
            }
            lemma_add_kind(n, n2, n3, s1, "UICorner"@);
            let s2 = s1.insert("UICorner"@);
            let n4 = flex_step(n3);
            if has_flex(n3.props) {
                let q = n3.props;
                lemma_adds_front(
                    n3,
                    premove(
                        premove(premove(premove(premove(q, "LayoutGap"@), "FlexDirection"@), "display"@), "JustifyContent"@),
                        "AlignItems"@,
                    ),
                    list_node(q),
                );
            } else {
                lemma_adds_none(n3, n3.props, "UIListLayout"@);
            }
            lemma_add_kind(n, n3, n4, s2, "UIListLayout"@);
            let s3 = s2.insert("UIListLayout"@);
            let n5 = aspect_step(n4);
            if let Some(ar) = pget(n4.props, "AspectRatio"@) {
                lemma_adds_front(
                    n4,
                    premove(n4.props, "AspectRatio"@),
                    helper1("UIAspectRatioConstraint"@, "AspectRatio"@, ar),
                );
            } else {
                lemma_adds_none(n4, n4.props, "UIAspectRatioConstraint"@);
            }
            lemma_add_kind(n, n4, n5, s3, "UIAspectRatioConstraint"@);
            let s4 = s3.insert("UIAspectRatioConstraint"@);
            let d = display_of(n5.props);
            let r1 = if display_is(d, "grid"@) {
                grid_step(n5, t)
            } else {
                Ok(n5)
            };
            if let Ok(g) = r1 {
                if display_is(d, "grid"@) {
                    let q = n5.props;
                    if let (Ok(cs), Ok(cp)) = (cell_size(q, t), cell_padding(q, t)) {
                        let p1 = if cs is Some {
                            premove(premove(q, "GridCellWidth"@), "GridCellHeight"@)
                        } else {
                            q
                        };
                        let p2 = if cp is Some {
                            premove(p1, "GridPadding"@)
                        } else {
                            p1
                        };
                        let m = insert_opt(insert_opt(Seq::empty(), "CellSize"@, cs), "CellPadding"@, cp);
                        lemma_adds_front(n5, without_display(p2), with_props(helper("UIGridLayout"@), m));
                    }
                } else {
                    lemma_adds_none(n5, n5.props, "UIGridLayout"@);
                }
                lemma_add_kind(n, n5, g, s4, "UIGridLayout"@);
                let s5 = s4.insert("UIGridLayout"@);
                let g2 = plain_layout_step(g, d, "table"@, "UITableLayout"@);
                lemma_plain_adds(g, d, "table"@, "UITableLayout"@);
                lemma_add_kind(n, g, g2, s5, "UITableLayout"@);
                let s6 = s5.insert("UITableLayout"@);
                let n6 = plain_layout_step(g2, d, "page"@, "UIPageLayout"@);
                lemma_plain_adds(g2, d, "page"@, "UIPageLayout"@);
                lemma_add_kind(n, g2, n6, s6, "UIPageLayout"@);
                let s7 = s6.insert("UIPageLayout"@);
                if let Ok(n7) = gradient_step(n6, t) {
                    if let Some(gv) = pget(n6.props, "Gradient"@) {
                        if let Ok(m) = gradient_props(gv, t) {
                            lemma_adds_front(
                                n6,
                                premove(n6.props, "Gradient"@),
                                with_props(helper("UIGradient"@), m),
                            );
                        }
                    } else {
                        lemma_adds_none(n6, n6.props, "UIGradient"@);
                    }
                    lemma_add_kind(n, n6, n7, s7, "UIGradient"@);
                    let s8 = s7.insert("UIGradient"@);
                    if let Ok(n8) = stroke_step(n7, t) {
                        if let Some(sv) = pget(n7.props, "UIStroke"@) {
                            if let Ok(m) = stroke_props(sv, t) {
                                lemma_adds_front(
                                    n7,
                                    premove(n7.props, "UIStroke"@),
                                    with_props(helper("UIStroke"@), m),
                                );
                            }
                        } else {
                            lemma_adds_none(n7, n7.props, "UIStroke"@);
                        }
                        lemma_add_kind(n, n7, n8, s8, "UIStroke"@);
                        let s9 = s8.insert("UIStroke"@);
                        let n9 = scale_step(n8);
                        if let Some(sc) = pget(n8.props, "UIScale"@) {
                            lemma_adds_front(
                                n8,
                                premove(n8.props, "UIScale"@),
                                helper1("UIScale"@, "Scale"@, sc),
                            );
                        } else {
                            lemma_adds_none(n8, n8.props, "UIScale"@);
                        }
                        lemma_add_kind(n, n8, n9, s9, "UIScale"@);
                        if let Ok(m) = inject(n, pfc, t) {
                            assert(m.helpers == n9.helpers);
                            assert(added(n, m) == added(n, n9));
                        }
                    }
                }
            }
        }
    }
}

proof fn lemma_plain_adds(n: SNode, d: Option<Seq<char>>, w: Seq<char>, it: Seq<char>)
    ensures
        adds_one(n, plain_layout_step(n, d, w, it), it),
{
    if display_is(d, w) {
        lemma_adds_front(n, without_display(n.props), helper(it));
    } else {
        lemma_adds_none(n, n.props, it);
    }
}

proof fn lemma_padding_node_kind(l: Seq<char>, r: Seq<char>, tp: Seq<char>, b: Seq<char>, t: STable)
    ensures
        padding_node(l, r, tp, b, t) matches Ok(h) ==> h.itype == "UIPadding"@,
{
}


proof fn lemma_padding_fresh(n: SNode, t: STable)
    ensures
        asks_fresh(t, padding_step(n, t)),
{
}

proof fn lemma_corner_fresh(n: SNode, t: STable)
    ensures
        asks_fresh(t, corner_step(n, t)),
{
}

proof fn lemma_display_fresh(n: SNode, t: STable)
    ensures
        asks_fresh(t, display_step(n, t)),
{
}

proof fn lemma_gradient_fresh(n: SNode, t: STable)
    ensures
        asks_fresh(t, gradient_step(n, t)),
{
    if let Some(g) = pget(n.props, "Gradient"@) {
        let parts = words(g);
        if parts.len() >= 2 {
            crate::mapping::lemma_color_fresh(parts[0], t);
            crate::mapping::lemma_color_fresh(parts[1], t);
        }
    }
}

proof fn lemma_stroke_fresh(n: SNode, t: STable)
    ensures
        asks_fresh(t, stroke_step(n, t)),
{
    if let Some(g) = pget(n.props, "UIStroke"@) {
        let parts = words(g);
        if parts.len() > 1 {
            crate::mapping::lemma_color_fresh(parts[1], t);
        }
    }
}

proof fn lemma_own_steps_fresh(n: SNode, pfc: Option<bool>, t: STable)
    ensures
        asks_fresh(t, own_steps(n, pfc, t)),
{
    let n1 = auto_step(n, pfc);
    lemma_padding_fresh(n1, t);
    if let Ok(n2) = padding_step(n1, t) {
        lemma_corner_fresh(n2, t);
        if let Ok(n3) = corner_step(n2, t) {
            let n5 = aspect_step(flex_step(n3));
            lemma_display_fresh(n5, t);
            if let Ok(n6) = display_step(n5, t) {
                lemma_gradient_fresh(n6, t);
                if let Ok(n7) = gradient_step(n6, t) {
                    lemma_stroke_fresh(n7, t);
                }
            }
        }
    }
}

proof fn lemma_inject_with_fresh(n: SNode, kids: Seq<SNode>, pfc: Option<bool>, t: STable)
    ensures
        asks_fresh(t, inject_with(n, kids, pfc, t)),
    decreases kids, 1int,
{
    lemma_own_steps_fresh(n, pfc, t);
    if let Ok((m, fc)) = own_steps(n, pfc, t) {
        lemma_inject_kids_fresh(kids, 0, fc, t);
    }
}

proof fn lemma_inject_kids_fresh(kids: Seq<SNode>, idx: nat, fc: Option<bool>, t: STable)
    ensures
        asks_fresh(t, inject_kids(kids, idx, fc, t)),
    decreases kids, 0int,
{
    if kids.len() > 0 {
        lemma_inject_with_fresh(kid_prep(kids[0], idx, fc), kids[0].children, fc, t);
        lemma_inject_kids_fresh(kids.drop_first(), idx + 1, fc, t);
    }
}

proof fn lemma_finalize_fresh(n: SNode, is_root: bool, t: STable)
    ensures
        asks_fresh(t, finalize(n, is_root, t)),
{
}

proof fn lemma_tnode_fresh(n: SNode, is_root: bool, t: STable)
    ensures
        asks_fresh(t, tnode(n, is_root, t)),
    decreases size(n), 1int,
{
    lemma_inject_with_fresh(n, n.children, None, t);
    lemma_inject_with_sizes(n, n.children, None, t);
    if let Ok(m) = inject(n, None, t) {
        lemma_finalize_children(m, is_root, t);
        lemma_finalize_fresh(m, is_root, t);
        if let Ok(f) = finalize(m, is_root, t) {
            lemma_tkids_fresh(f.children, t);
        }
    }
}

proof fn lemma_tkids_fresh(kids: Seq<SNode>, t: STable)
    ensures
        asks_fresh(t, tkids(kids, t)),
    decreases sizes(kids), 2int,
{
    if kids.len() > 0 {
        lemma_sizes_elem(kids, 0);
        lemma_tnode_fresh(kids[0], false, t);
        lemma_tkids_fresh(kids.drop_first(), t);
    }
}

/// The layout transform stops for a number only when the table lacks it.
pub proof fn lemma_transform_fresh(n: SNode, t: STable)
    ensures
        asks_fresh(t, transform_spec(n, t)),
{
    lemma_tnode_fresh(n, true, t);
}


pub open spec fn num_char(c: char) -> bool {
    is_digit(c) || c == '.' || c == '-' || c == '+' || c == 'e' || c == 'E'
}

/// A finite decimal literal as a number answer is written: `parse::<f32>`
/// accepts it, and it holds only digits, `.`, signs and exponent marks.
pub open spec fn decimal_answer(n: Seq<char>) -> bool {
    &&& n.len() > 0
    &&& is_float_lit(n)
    &&& forall|i: int| 0 <= i < n.len() ==> num_char(#[trigger] n[i])
}

proof fn lemma_find_comma(a: Seq<char>, b: Seq<char>, j: int)
    requires
        0 <= j <= a.len(),
        forall|i: int| 0 <= i < a.len() ==> #[trigger] a[i] != ',',
    ensures
        find_from(a + seq![','] + b, seq![','], j) == Some(a.len() as int),
    decreases a.len() - j,
{
    let x = a + seq![','] + b;
    if j < a.len() {
        assert(x[j] == a[j]);
        assert(!occurs_at(x, seq![','], j)) by {
            if occurs_at(x, seq![','], j) {
                assert(x.subrange(j, j + 1)[0] == x[j]);
            }
        }
        lemma_find_comma(a, b, j + 1);
    } else {
        assert(x.subrange(j, j + 1) =~= seq![',']);
    }
}

proof fn lemma_split_comma(a: Seq<char>, b: Seq<char>)
    requires
        forall|i: int| 0 <= i < a.len() ==> #[trigger] a[i] != ',',
    ensures
        split_char(a + seq![','] + b, ',') == seq![a] + split_char(b, ','),
{
    let x = a + seq![','] + b;
    lemma_find_comma(a, b, 0);
    assert(x.take(a.len() as int) =~= a);
    assert(x.skip(a.len() as int + 1) =~= b);
}

proof fn lemma_split_last(a: Seq<char>)
    requires
        forall|i: int| 0 <= i < a.len() ==> #[trigger] a[i] != ',',
    ensures
        split_char(a, ',') == seq![a],
{
    lemma_find_from(a, seq![','], 0);
    if let Some(k) = find(a, seq![',']) {
        assert(a.subrange(k, k + 1)[0] == a[k]);
    }
}

proof fn lemma_trim_plain(n: Seq<char>)
    requires
        n.len() > 0,
        !is_ws(n[0]),
        !is_ws(n.last()),
    ensures
        trim(n) == n,
        trim(seq![' '] + n) == n,
{
    assert(trim_start(n) == n);
    assert(trim_end(n) == n);
    let m = seq![' '] + n;
    assert(m.drop_first() =~= n);
    assert(trim_start(m) == trim_start(n));
}

proof fn lemma_decimal_plain(n: Seq<char>)
    requires
        decimal_answer(n),
    ensures
        trim(n) == n,
        trim(seq![' '] + n) == n,
        forall|i: int| 0 <= i < n.len() ==> #[trigger] n[i] != ',' && n[i] != ')' && n[i] != 'U',
{
    assert(num_char(n[0]));
    assert(num_char(n[n.len() - 1]));
    lemma_trim_plain(n);
}

proof fn lemma_zero()
    ensures
        decimal_answer("0"@),
{
    reveal_strlit("0");
    assert(crate::num::digits_end("0"@, 1) == 1);
    assert(crate::num::digits_end("0"@, 0) == 1);
    assert("0"@.skip(0) =~= "0"@);
}

proof fn lemma_float_pieces_plain(ps: Seq<Seq<char>>, qs: Seq<Seq<char>>)
    requires
        ps.len() == qs.len(),
        forall|i: int| 0 <= i < ps.len() ==> trim(#[trigger] ps[i]) == qs[i] && is_float_lit(qs[i]),
    ensures
        float_pieces(ps) == qs,
    decreases ps.len(),
{
    if ps.len() > 0 {
        lemma_float_pieces_plain(ps.drop_last(), qs.drop_last());
        assert(trim(ps[ps.len() - 1]) == qs[qs.len() - 1]);
        assert(qs.drop_last().push(qs.last()) =~= qs);
    }
}


proof fn lemma_frame(p: Seq<char>, body: Seq<char>)
    requires
        p.len() > 0,
        p[0] == 'U',
        body.len() >= 2,
        body[0] != 'U',
        body.last() == ')',
        body[body.len() - 2] != ')',
    ensures
        trim(p + body) == p + body,
        starts_with(p + body, p),
        udim_inner(p + body, p) == float_pieces(split_char(body.drop_last(), ',')),
{
    let s = p + body;
    assert(s[0] == 'U');
    assert(s.last() == ')');
    assert(trim_start(s) == s);
    assert(trim_end(s) == s);
    assert(s.take(p.len() as int) =~= p);
    assert(s.skip(p.len() as int) =~= body);
    assert(!starts_with(body, p)) by {
        if starts_with(body, p) {
            assert(body.take(p.len() as int)[0] == body[0]);
        }
    }
    assert(strip_prefixes(body, p) == body);
    assert(strip_prefixes(s, p) == strip_prefixes(body, p));
    let rb = ")"@;
    reveal_strlit(")");
    assert(body.skip(body.len() - rb.len()) =~= rb);
    let d = body.take(body.len() - rb.len());
    assert(d =~= body.drop_last());
    assert(!ends_with(d, rb)) by {
        if ends_with(d, rb) {
            assert(d.skip(d.len() - 1)[0] == d[d.len() - 1]);
        }
    }
    assert(strip_suffixes(d, rb) == d);
    assert(strip_suffixes(body, rb) == strip_suffixes(d, rb));
}

/// The comma-separated pieces of the inner texts of the written forms.
proof fn lemma_read_pieces(n: Seq<char>)
    requires
        decimal_answer(n),
    ensures
        float_pieces(split_char(n + ", 0"@, ',')) == seq![n, "0"@],
        float_pieces(split_char(n + ", 0, 0, 0"@, ',')) == seq![n, "0"@, "0"@, "0"@],
        float_pieces(split_char("0, "@ + n, ',')) == seq!["0"@, n],
        float_pieces(split_char("0, 0, "@ + n + ", 0"@, ',')) == seq!["0"@, "0"@, n, "0"@],
{
    lemma_decimal_plain(n);
    lemma_zero();
    let z = "0"@;
    reveal_strlit("0");
    reveal_strlit(", 0");
    reveal_strlit(", 0, 0, 0");
    reveal_strlit("0, ");
    reveal_strlit("0, 0, ");
    let sp0 = seq![' '] + z;
    lemma_trim_plain(z);
    let spn = seq![' '] + n;
    assert(forall|i: int| 0 <= i < z.len() ==> #[trigger] z[i] != ',');
    assert(forall|i: int| 0 <= i < sp0.len() ==> #[trigger] sp0[i] != ',');
    assert forall|i: int| 0 <= i < spn.len() implies #[trigger] spn[i] != ',' by {
        if i > 0 {
            assert(spn[i] == n[i - 1]);
        }
    }
    lemma_split_last(sp0);
    lemma_split_last(spn);
    let a = n + seq![','] + sp0;
    assert(n + ", 0"@ =~= a);
    lemma_split_comma(n, sp0);
    assert(split_char(a, ',') =~= seq![n, sp0]);
    lemma_float_pieces_plain(seq![n, sp0], seq![n, z]);
    let b3 = sp0 + seq![','] + sp0;
    let b2 = sp0 + seq![','] + b3;
    let b = n + seq![','] + b2;
    assert(n + ", 0, 0, 0"@ =~= b);
    lemma_split_comma(sp0, sp0);
    lemma_split_comma(sp0, b3);
    lemma_split_comma(n, b2);
    assert(split_char(b, ',') =~= seq![n, sp0, sp0, sp0]);
    lemma_float_pieces_plain(seq![n, sp0, sp0, sp0], seq![n, z, z, z]);
    let c = z + seq![','] + spn;
    assert("0, "@ + n =~= c);
    lemma_split_comma(z, spn);
    assert(split_char(c, ',') =~= seq![z, spn]);
    lemma_float_pieces_plain(seq![z, spn], seq![z, n]);
    let d3 = spn + seq![','] + sp0;
    let d2 = sp0 + seq![','] + d3;
    let d = z + seq![','] + d2;
    assert("0, 0, "@ + n + ", 0"@ =~= d);
    lemma_split_comma(spn, sp0);
    lemma_split_comma(sp0, d3);
    lemma_split_comma(z, d2);
    assert(split_char(d, ',') =~= seq![z, sp0, spn, sp0]);
    lemma_float_pieces_plain(seq![z, sp0, spn, sp0], seq![z, z, n, z]);
}

proof fn lemma_read_form(p: Seq<char>, inner: Seq<char>, n: Seq<char>)
    requires
        decimal_answer(n),
        p.len() > 0,
        p[0] == 'U',
        inner.len() >= 1,
        inner[0] != 'U',
        inner.last() != ')',
    ensures
        trim(p + (inner + seq![')'])) == p + (inner + seq![')']),
        starts_with(p + (inner + seq![')']), p),
        udim_inner(p + (inner + seq![')']), p) == float_pieces(split_char(inner, ',')),
{
    let body = inner + seq![')'];
    assert(body[0] == inner[0]);
    assert(body[body.len() - 2] == inner.last());
    assert(body.drop_last() =~= inner);
    lemma_frame(p, body);
}

/// The layout reads back the number the mapping wrote into a `UDim2`: for a
/// finite decimal answer `n`, each form `to_udim2_x` and `to_udim2_y` write
/// gives `n` back as the scale (`%`, `vw`, `vh`) or as the offset (`px`).
pub proof fn law_udim_read_back(n: Seq<char>)
    requires
        decimal_answer(n),
    ensures
        udim_parts("UDim2.fromScale("@ + n + ", 0)"@, false) == (n, "0"@),
        udim_parts("UDim2.fromOffset("@ + n + ", 0)"@, false) == ("0"@, n),
        udim_parts("UDim2.new("@ + n + ", 0, 0, 0)"@, false) == (n, "0"@),
        udim_parts("UDim2.fromScale(0, "@ + n + ")"@, true) == (n, "0"@),
        udim_parts("UDim2.fromOffset(0, "@ + n + ")"@, true) == ("0"@, n),
        udim_parts("UDim2.new(0, 0, "@ + n + ", 0)"@, true) == (n, "0"@),
{
    lemma_read_pieces(n);
    lemma_decimal_plain(n);
    lemma_read_x(n);
    lemma_read_y(n);
}

proof fn lemma_read_x(n: Seq<char>)
    requires
        decimal_answer(n),
        float_pieces(split_char(n + ", 0"@, ',')) == seq![n, "0"@],
        float_pieces(split_char(n + ", 0, 0, 0"@, ',')) == seq![n, "0"@, "0"@, "0"@],
    ensures
        udim_parts("UDim2.fromScale("@ + n + ", 0)"@, false) == (n, "0"@),
        udim_parts("UDim2.fromOffset("@ + n + ", 0)"@, false) == ("0"@, n),
        udim_parts("UDim2.new("@ + n + ", 0, 0, 0)"@, false) == (n, "0"@),
{
    lemma_decimal_plain(n);
    reveal_strlit("UDim2.fromScale(");
    reveal_strlit("UDim2.fromOffset(");
    reveal_strlit("UDim2.new(");
    reveal_strlit(", 0)");
    reveal_strlit(", 0");
    reveal_strlit(", 0, 0, 0)");
    reveal_strlit(", 0, 0, 0");
    let fs = "UDim2.fromScale("@;
    let fo = "UDim2.fromOffset("@;
    let nw = "UDim2.new("@;
    let a = n + ", 0"@;
    let b = n + ", 0, 0, 0"@;
    assert(a[0] == n[0] && b[0] == n[0]);
    let s1 = fs + n + ", 0)"@;
    assert(s1 =~= fs + (a + seq![')']));
    lemma_read_form(fs, a, n);
    let s2 = fo + n + ", 0)"@;
    assert(s2 =~= fo + (a + seq![')']));
    lemma_read_form(fo, a, n);
    assert(!starts_with(s2, fs)) by {
        assert(s2.take(fs.len() as int)[10] != fs[10]);
    }
    let s3 = nw + n + ", 0, 0, 0)"@;
    assert(s3 =~= nw + (b + seq![')']));
    lemma_read_form(nw, b, n);
    assert(!starts_with(s3, fs)) by {
        assert(s3.take(fs.len() as int)[6] != fs[6]);
    }
    assert(!starts_with(s3, fo)) by {
        assert(s3.take(fo.len() as int)[6] != fo[6]);
    }
}

proof fn lemma_read_y(n: Seq<char>)
    requires
        decimal_answer(n),
        float_pieces(split_char("0, "@ + n, ',')) == seq!["0"@, n],
        float_pieces(split_char("0, 0, "@ + n + ", 0"@, ',')) == seq!["0"@, "0"@, n, "0"@],
    ensures
        udim_parts("UDim2.fromScale(0, "@ + n + ")"@, true) == (n, "0"@),
        udim_parts("UDim2.fromOffset(0, "@ + n + ")"@, true) == ("0"@, n),
        udim_parts("UDim2.new(0, 0, "@ + n + ", 0)"@, true) == (n, "0"@),
{
    lemma_decimal_plain(n);
    reveal_strlit("UDim2.fromScale(");
    reveal_strlit("UDim2.fromOffset(");
    reveal_strlit("UDim2.new(");
    reveal_strlit("UDim2.fromScale(0, ");
    reveal_strlit("UDim2.fromOffset(0, ");
    reveal_strlit("UDim2.new(0, 0, ");
    reveal_strlit("0, ");
    reveal_strlit("0, 0, ");
    reveal_strlit(", 0");
    reveal_strlit(", 0)");
    reveal_strlit(")");
    let fs = "UDim2.fromScale("@;
    let fo = "UDim2.fromOffset("@;
    let nw = "UDim2.new("@;
    let c = "0, "@ + n;
    let d = "0, 0, "@ + n + ", 0"@;
    assert(c.last() == n.last());
    let s4 = "UDim2.fromScale(0, "@ + n + ")"@;
    assert(s4 =~= fs + (c + seq![')']));
    lemma_read_form(fs, c, n);
    let s5 = "UDim2.fromOffset(0, "@ + n + ")"@;
    assert(s5 =~= fo + (c + seq![')']));
    lemma_read_form(fo, c, n);
    assert(!starts_with(s5, fs)) by {
        assert(s5.take(fs.len() as int)[10] != fs[10]);
    }
    let s6 = "UDim2.new(0, 0, "@ + n + ", 0)"@;
    assert(s6 =~= nw + (d + seq![')']));
    lemma_read_form(nw, d, n);
    assert(!starts_with(s6, fs)) by {
        assert(s6.take(fs.len() as int)[6] != fs[6]);
    }
    assert(!starts_with(s6, fo)) by {
        assert(s6.take(fo.len() as int)[6] != fo[6]);
    }
}


/// What the layout reads back from a mapped width or height: its scale and
/// offset literals.
pub open spec fn read_back(r: Result<Seq<char>, SHalt>, axis_y: bool) -> Option<(Seq<char>, Seq<char>)> {
    match r {
        Ok(s) => Some(udim_parts(s, axis_y)),
        Err(_) => None,
    }
}

proof fn lemma_suffixes_apart(v: Seq<char>)
    ensures
        ends_with(v, "px"@) ==> !ends_with(v, "%"@),
        ends_with(v, "vw"@) ==> !ends_with(v, "%"@) && !ends_with(v, "px"@),
        ends_with(v, "vh"@) ==> !ends_with(v, "%"@) && !ends_with(v, "px"@),
{
    reveal_strlit("px");
    reveal_strlit("%");
    reveal_strlit("vw");
    reveal_strlit("vh");
    if ends_with(v, "px"@) {
        assert(v.skip(v.len() - 2)[1] == v.last());
    }
    if ends_with(v, "vw"@) {
        assert(v.skip(v.len() - 2)[1] == v.last());
    }
    if ends_with(v, "vh"@) {
        assert(v.skip(v.len() - 2)[1] == v.last());
    }
    if ends_with(v, "%"@) {
        assert(v.skip(v.len() - 1)[0] == v.last());
    }
}

/// The layout reads back the width the mapping wrote: when the number of a
/// `%`, `px` or `vw` width is answered with a finite decimal `n`, the layout
/// reads `n` back as the scale (`%`, `vw`) or as the offset (`px`); any other
/// width reads back as zero.
pub proof fn law_width_read_back(value: Seq<char>, t: STable)
    ensures
        ({
            let v = trim(value);
            &&& ends_with(v, "%"@) ==> (num_or(t, NumOp::Percent, strip_suffixes(v, "%"@), "0"@) matches Ok(n)
                ==> (decimal_answer(n) ==> read_back(udim2_x(value, t), false) == Some((n, "0"@))))
            &&& ends_with(v, "px"@) ==> (num_or(t, NumOp::Show, strip_suffixes(v, "px"@), "0"@) matches Ok(n)
                ==> (decimal_answer(n) ==> read_back(udim2_x(value, t), false) == Some(("0"@, n))))
            &&& ends_with(v, "vw"@) ==> (num_or(t, NumOp::Percent, strip_suffixes(v, "vw"@), "0"@) matches Ok(n)
                ==> (decimal_answer(n) ==> read_back(udim2_x(value, t), false) == Some((n, "0"@))))
            &&& !ends_with(v, "%"@) && !ends_with(v, "px"@) && !ends_with(v, "vw"@) ==> read_back(
                udim2_x(value, t),
                false,
            ) == Some(("0"@, "0"@))
        }),
{
    let v = trim(value);
    lemma_suffixes_apart(v);
    lemma_zero();
    law_udim_read_back("0"@);
    reveal_strlit("UDim2.fromScale(0, 0)");
    reveal_strlit("UDim2.fromScale(");
    reveal_strlit("0");
    reveal_strlit(", 0)");
    assert("UDim2.fromScale(0, 0)"@ =~= "UDim2.fromScale("@ + "0"@ + ", 0)"@);
    if let Ok(n) = num_or(t, NumOp::Percent, strip_suffixes(v, "%"@), "0"@) {
        if decimal_answer(n) {
            law_udim_read_back(n);
        }
    }
    if let Ok(n) = num_or(t, NumOp::Show, strip_suffixes(v, "px"@), "0"@) {
        if decimal_answer(n) {
            law_udim_read_back(n);
        }
    }
    if let Ok(n) = num_or(t, NumOp::Percent, strip_suffixes(v, "vw"@), "0"@) {
        if decimal_answer(n) {
            law_udim_read_back(n);
        }
    }
}

/// The layout reads back the height the mapping wrote: when the number of a
/// `%`, `px` or `vh` height is answered with a finite decimal `n`, the layout
/// reads `n` back as the scale (`%`, `vh`) or as the offset (`px`); any other
/// height reads back as zero.
pub proof fn law_height_read_back(value: Seq<char>, t: STable)
    ensures
        ({
            let v = trim(value);
            &&& ends_with(v, "%"@) ==> (num_or(t, NumOp::Percent, strip_suffixes(v, "%"@), "0"@) matches Ok(n)
                ==> (decimal_answer(n) ==> read_back(udim2_y(value, t), true) == Some((n, "0"@))))
            &&& ends_with(v, "px"@) ==> (num_or(t, NumOp::Show, strip_suffixes(v, "px"@), "0"@) matches Ok(n)
                ==> (decimal_answer(n) ==> read_back(udim2_y(value, t), true) == Some(("0"@, n))))
            &&& ends_with(v, "vh"@) ==> (num_or(t, NumOp::Percent, strip_suffixes(v, "vh"@), "0"@) matches Ok(n)
                ==> (decimal_answer(n) ==> read_back(udim2_y(value, t), true) == Some((n, "0"@))))
            &&& !ends_with(v, "%"@) && !ends_with(v, "px"@) && !ends_with(v, "vh"@) ==> read_back(
                udim2_y(value, t),
                true,
            ) == Some(("0"@, "0"@))
        }),
{
    let v = trim(value);
    lemma_suffixes_apart(v);
    lemma_zero();
    law_udim_read_back("0"@);
    reveal_strlit("UDim2.fromScale(0, 0)");
    reveal_strlit("UDim2.fromScale(0, ");
    reveal_strlit("0");
    reveal_strlit(")");
    assert("UDim2.fromScale(0, 0)"@ =~= "UDim2.fromScale(0, "@ + "0"@ + ")"@);
    if let Ok(n) = num_or(t, NumOp::Percent, strip_suffixes(v, "%"@), "0"@) {
        if decimal_answer(n) {
            law_udim_read_back(n);
        }
    }
    if let Ok(n) = num_or(t, NumOp::Show, strip_suffixes(v, "px"@), "0"@) {
        if decimal_answer(n) {
            law_udim_read_back(n);
        }
    }
    if let Ok(n) = num_or(t, NumOp::Percent, strip_suffixes(v, "vh"@), "0"@) {
        if decimal_answer(n) {
            law_udim_read_back(n);
        }
    }
}


/// Alignment words in any case: `center` centres, `flex-end` and `end` pack
/// to the right (horizontally) or the bottom (vertically), and anything else
/// packs to the left or the top.
pub proof fn law_alignment_words(v: Seq<char>)
    ensures
        lower(v) == "center"@ ==> horiz(v) == "Enum.HorizontalAlignment.Center"@ && vert(v)
            == "Enum.VerticalAlignment.Center"@,
        lower(v) == "flex-end"@ || lower(v) == "end"@ ==> horiz(v) == "Enum.HorizontalAlignment.Right"@
            && vert(v) == "Enum.VerticalAlignment.Bottom"@,
        lower(v) != "center"@ && lower(v) != "flex-end"@ && lower(v) != "end"@ ==> horiz(v)
            == "Enum.HorizontalAlignment.Left"@ && vert(v) == "Enum.VerticalAlignment.Top"@,
{
    reveal_strlit("center");
    reveal_strlit("flex-end");
    reveal_strlit("end");
    assert("center"@.len() != "flex-end"@.len() && "center"@.len() != "end"@.len());
}

/// The `UIListLayout` of a flex container: a row lays its items out
/// horizontally, aligned along the row by `JustifyContent` (default
/// `flex-start`) and across it by `AlignItems` (default `stretch`); a column
/// lays them out vertically, with `JustifyContent` along the column and
/// `AlignItems` across it.
pub proof fn law_list_layout_alignment(p: SProps)
    ensures
        list_node(p).itype == "UIListLayout"@,
        ({
            let justify = match pget(p, "JustifyContent"@) {
                Some(v) => v,
                None => "flex-start"@,
            };
            let align = match pget(p, "AlignItems"@) {
                Some(v) => v,
                None => "stretch"@,
            };
            let m = list_node(p).props;
            if flex_column(p) == Some(true) {
                &&& pget(m, "FillDirection"@) == Some("Enum.FillDirection.Vertical"@)
                &&& pget(m, "VerticalAlignment"@) == Some(vert(justify))
                &&& pget(m, "HorizontalAlignment"@) == Some(horiz(align))
            } else {
                &&& pget(m, "FillDirection"@) == Some("Enum.FillDirection.Horizontal"@)
                &&& pget(m, "HorizontalAlignment"@) == Some(horiz(justify))
                &&& pget(m, "VerticalAlignment"@) == Some(vert(align))
            }
        }),
{
    reveal_strlit("FillDirection");
    reveal_strlit("VerticalAlignment");
    reveal_strlit("HorizontalAlignment");
    reveal_strlit("Padding");
    let fd = "FillDirection"@;
    let va = "VerticalAlignment"@;
    let ha = "HorizontalAlignment"@;
    let pd = "Padding"@;
    assert(fd.len() != va.len() && fd.len() != ha.len() && va.len() != ha.len());
    assert(pd.len() != fd.len() && pd.len() != va.len() && pd.len() != ha.len());
    let col = flex_column(p) == Some(true);
    let justify = match pget(p, "JustifyContent"@) {
        Some(v) => v,
        None => "flex-start"@,
    };
    let align = match pget(p, "AlignItems"@) {
        Some(v) => v,
        None => "stretch"@,
    };
    let fdv = if col {
        "Enum.FillDirection.Vertical"@
    } else {
        "Enum.FillDirection.Horizontal"@
    };
    let e = Seq::<(Seq<char>, Seq<char>)>::empty();
    let m0 = pinsert(e, fd, fdv);
    law_get_after_insert(e, fd, fdv, fd);
    let (k1, v1, k2, v2) = if col {
        (va, vert(justify), ha, horiz(align))
    } else {
        (ha, horiz(justify), va, vert(align))
    };
    let a = pinsert(m0, k1, v1);
    let m1 = pinsert(a, k2, v2);
    law_get_after_insert(m0, k1, v1, fd);
    law_get_after_insert(m0, k1, v1, k1);
    law_get_after_insert(a, k2, v2, fd);
    law_get_after_insert(a, k2, v2, k1);
    law_get_after_insert(a, k2, v2, k2);
    if let Some(g) = pget(p, "LayoutGap"@) {
        if let Some(k) = parse_i32(g) {
            let x = "UDim.new(0, "@ + int_dec(k) + ")"@;
            law_get_after_insert(m1, pd, x, fd);
            law_get_after_insert(m1, pd, x, k1);
            law_get_after_insert(m1, pd, x, k2);
        }
    }
}


pub open spec fn early_key(k: Seq<char>) -> bool {
    k == "AutomaticSize"@ || k == "Padding"@ || k == "PaddingLeft"@ || k == "PaddingRight"@ || k == "PaddingTop"@ || k == "PaddingBottom"@ || k == "CornerRadius"@
}

pub open spec fn list_input(k: Seq<char>) -> bool {
    k == "FlexDirection"@ || k == "display"@ || k == "JustifyContent"@ || k == "AlignItems"@ || k == "LayoutGap"@
}

proof fn lemma_list_inputs_apart(k: Seq<char>)
    requires
        list_input(k),
    ensures
        !early_key(k),
{
    reveal_strlit("AutomaticSize");
    reveal_strlit("Padding");
    reveal_strlit("PaddingLeft");
    reveal_strlit("PaddingRight");
    reveal_strlit("PaddingTop");
    reveal_strlit("PaddingBottom");
    reveal_strlit("CornerRadius");
    reveal_strlit("FlexDirection");
    reveal_strlit("display");
    reveal_strlit("JustifyContent");
    reveal_strlit("AlignItems");
    reveal_strlit("LayoutGap");
    assert("FlexDirection"@[0] != "AutomaticSize"@[0]);
    assert("FlexDirection"@.len() != "Padding"@.len());
    assert("FlexDirection"@.len() != "PaddingLeft"@.len());
    assert("FlexDirection"@.len() != "PaddingRight"@.len());
    assert("FlexDirection"@.len() != "PaddingTop"@.len());
    assert("FlexDirection"@[0] != "PaddingBottom"@[0]);
    assert("FlexDirection"@.len() != "CornerRadius"@.len());
    assert("display"@.len() != "AutomaticSize"@.len());
    assert("display"@[0] != "Padding"@[0]);
    assert("display"@.len() != "PaddingLeft"@.len());
    assert("display"@.len() != "PaddingRight"@.len());
    assert("display"@.len() != "PaddingTop"@.len());
    assert("display"@.len() != "PaddingBottom"@.len());
    assert("display"@.len() != "CornerRadius"@.len());
    assert("JustifyContent"@.len() != "AutomaticSize"@.len());
    assert("JustifyContent"@.len() != "Padding"@.len());
    assert("JustifyContent"@.len() != "PaddingLeft"@.len());
    assert("JustifyContent"@.len() != "PaddingRight"@.len());
    assert("JustifyContent"@.len() != "PaddingTop"@.len());
    assert("JustifyContent"@.len() != "PaddingBottom"@.len());
    assert("JustifyContent"@.len() != "CornerRadius"@.len());
    assert("AlignItems"@.len() != "AutomaticSize"@.len());
    assert("AlignItems"@.len() != "Padding"@.len());
    assert("AlignItems"@.len() != "PaddingLeft"@.len());
    assert("AlignItems"@.len() != "PaddingRight"@.len());
    assert("AlignItems"@[0] != "PaddingTop"@[0]);
    assert("AlignItems"@.len() != "PaddingBottom"@.len());
    assert("AlignItems"@.len() != "CornerRadius"@.len());
    assert("LayoutGap"@.len() != "AutomaticSize"@.len());
    assert("LayoutGap"@.len() != "Padding"@.len());
    assert("LayoutGap"@.len() != "PaddingLeft"@.len());
    assert("LayoutGap"@.len() != "PaddingRight"@.len());
    assert("LayoutGap"@.len() != "PaddingTop"@.len());
    assert("LayoutGap"@.len() != "PaddingBottom"@.len());
    assert("LayoutGap"@.len() != "CornerRadius"@.len());
}

proof fn lemma_key_kept_early(n: SNode, pfc: Option<bool>, t: STable, k: Seq<char>)
    requires
        !early_key(k),
    ensures
        padding_step(auto_step(n, pfc), t) matches Ok(n2) ==> (corner_step(n2, t) matches Ok(n3)
            ==> pget(n3.props, k) == pget(n.props, k)),
{
    let n1 = auto_step(n, pfc);
    if let Some(col) = pfc {
        let v = if col {
            "Enum.AutomaticSize.Y"@
        } else {
            "Enum.AutomaticSize.X"@
        };
        law_get_after_insert(n.props, "AutomaticSize"@, v, k);
    }
    if let Ok(n2) = padding_step(n1, t) {
        let p = n1.props;
        let a = premove(p, "Padding"@);
        let b = premove(a, "PaddingLeft"@);
        let c = premove(b, "PaddingRight"@);
        let d = premove(c, "PaddingTop"@);
        law_get_after_remove(p, "Padding"@, k);
        law_get_after_remove(a, "PaddingLeft"@, k);
        law_get_after_remove(b, "PaddingRight"@, k);
        law_get_after_remove(c, "PaddingTop"@, k);
        law_get_after_remove(d, "PaddingBottom"@, k);
        assert(n2.props == without_padding(p));
        if let Ok(n3) = corner_step(n2, t) {
            law_get_after_remove(n2.props, "CornerRadius"@, k);
        }
    }
}

/// The `UIListLayout` a flex container gets is the one its own CSS asks for:
/// it is built from the container's `FlexDirection`, `display`,
/// `JustifyContent`, `AlignItems` and `LayoutGap` as they stood before the
/// layout (see `law_list_layout_alignment`).
pub proof fn law_flex_list_follows_css(n: SNode, pfc: Option<bool>, t: STable)
    ensures
        inject(n, pfc, t) matches Ok(m) ==> (has_flex(n.props) ==> exists|i: int|
            0 <= i < m.helpers.len() && #[trigger] m.helpers[i] == list_node(n.props)),
{
    let n1 = auto_step(n, pfc);
    if let Ok(n2) = padding_step(n1, t) {
        if let Ok(n3) = corner_step(n2, t) {
            let p = n3.props;
            lemma_list_inputs_apart("FlexDirection"@);
            lemma_list_inputs_apart("display"@);
            lemma_list_inputs_apart("JustifyContent"@);
            lemma_list_inputs_apart("AlignItems"@);
            lemma_list_inputs_apart("LayoutGap"@);
            lemma_key_kept_early(n, pfc, t, "FlexDirection"@);
            lemma_key_kept_early(n, pfc, t, "display"@);
            lemma_key_kept_early(n, pfc, t, "JustifyContent"@);
            lemma_key_kept_early(n, pfc, t, "AlignItems"@);
            lemma_key_kept_early(n, pfc, t, "LayoutGap"@);
            assert(list_node(p) == list_node(n.props));
            let n4 = flex_step(n3);
            if has_flex(n.props) {
                assert(n4.helpers[0] == list_node(p));
                let n5 = aspect_step(n4);
                lemma_aspect_in_front(n4);
                lemma_display_in_front(n5, t);
                if let Ok(n6) = display_step(n5, t) {
                    lemma_in_front_trans(n4, n5, n6);
                    lemma_gradient_in_front(n6, t);
                    if let Ok(n7) = gradient_step(n6, t) {
                        lemma_in_front_trans(n4, n6, n7);
                        lemma_stroke_in_front(n7, t);
                        if let Ok(n8) = stroke_step(n7, t) {
                            lemma_in_front_trans(n4, n7, n8);
                            let n9 = scale_step(n8);
                            lemma_scale_in_front(n8);
                            lemma_in_front_trans(n4, n8, n9);
                            let j = n9.helpers.len() - n4.helpers.len();
                            assert(n9.helpers.skip(j)[0] == n9.helpers[j]);
                            assert(n9.helpers[j] == list_node(n.props));
                            assert(own_steps(n, pfc, t) == Ok::<(SNode, Option<bool>), SHalt>(
                                (n9, flex_column(p)),
                            ));
                            if let Ok(m) = inject(n, pfc, t) {
                                assert(m.helpers == n9.helpers);
                                assert(m.helpers[j] == list_node(n.props));
                            }
                        }
                    }
                }
            }
        }
    }
}


/// The four padding sides (left, right, top, bottom) of a `padding` value
/// from its number words (a `px` suffix dropped): one number pads every
/// side; two pad left and top with the first and right and bottom with the
/// second; four give the sides in order; any other count pads nothing.
pub proof fn law_padding_words(v: Seq<char>)
    ensures
        ({
            let p = px_words(words(v));
            &&& p.len() == 1 ==> pad4(v) == seq![p[0], p[0], p[0], p[0]]
            &&& p.len() == 2 ==> pad4(v) == seq![p[0], p[1], p[0], p[1]]
            &&& p.len() == 4 ==> pad4(v) == seq![p[0], p[1], p[2], p[3]]
            &&& p.len() != 1 && p.len() != 2 && p.len() != 4 ==> pad4(v) == seq!["0"@, "0"@, "0"@, "0"@]
        }),
{
    let p = px_words(words(v));
    if p.len() == 4 {
        assert(seq![p[0], p[1], p[2], p[3]] =~= p);
    }
}

/// The `UIPadding` helper sets each side to an offset `UDim` of the answer
/// to its own number: `PaddingLeft` from the left literal, `PaddingRight`
/// from the right, `PaddingTop` from the top and `PaddingBottom` from the
/// bottom.
pub proof fn law_padding_helper_sides(l: Seq<char>, r: Seq<char>, tp: Seq<char>, b: Seq<char>, t: STable)
    ensures
        padding_node(l, r, tp, b, t) matches Ok(h) ==> {
            &&& h.itype == "UIPadding"@
            &&& num(t, NumOp::Show, l) matches Ok(x) && pget(h.props, "PaddingLeft"@) == Some(
                "UDim.new(0, "@ + x + ")"@,
            )
            &&& num(t, NumOp::Show, r) matches Ok(x) && pget(h.props, "PaddingRight"@) == Some(
                "UDim.new(0, "@ + x + ")"@,
            )
            &&& num(t, NumOp::Show, tp) matches Ok(x) && pget(h.props, "PaddingTop"@) == Some(
                "UDim.new(0, "@ + x + ")"@,
            )
            &&& num(t, NumOp::Show, b) matches Ok(x) && pget(h.props, "PaddingBottom"@) == Some(
                "UDim.new(0, "@ + x + ")"@,
            )
        },
{
    reveal_strlit("PaddingLeft");
    reveal_strlit("PaddingRight");
    reveal_strlit("PaddingTop");
    reveal_strlit("PaddingBottom");
    let (kl, kr, kt, kb) = ("PaddingLeft"@, "PaddingRight"@, "PaddingTop"@, "PaddingBottom"@);
    assert(kl.len() != kr.len() && kl.len() != kt.len() && kl.len() != kb.len());
    assert(kr.len() != kt.len() && kr.len() != kb.len() && kt.len() != kb.len());
    if let Ok(h) = padding_node(l, r, tp, b, t) {
        let lv = udim_off(num(t, NumOp::Show, l))->Ok_0;
        let rv = udim_off(num(t, NumOp::Show, r))->Ok_0;
        let tv = udim_off(num(t, NumOp::Show, tp))->Ok_0;
        let bv = udim_off(num(t, NumOp::Show, b))->Ok_0;
        let e = Seq::<(Seq<char>, Seq<char>)>::empty();
        let m1 = pinsert(e, kl, lv);
        let m2 = pinsert(m1, kr, rv);
        let m3 = pinsert(m2, kt, tv);
        law_get_after_insert(e, kl, lv, kl);
        law_get_after_insert(m1, kr, rv, kl);
        law_get_after_insert(m1, kr, rv, kr);
        law_get_after_insert(m2, kt, tv, kl);
        law_get_after_insert(m2, kt, tv, kr);
        law_get_after_insert(m2, kt, tv, kt);
        law_get_after_insert(m3, kb, bv, kl);
        law_get_after_insert(m3, kb, bv, kr);
        law_get_after_insert(m3, kb, bv, kt);
        law_get_after_insert(m3, kb, bv, kb);
    }
}

/// A corner radius: a percentage within one of 50 rounds fully
/// (`UDim.new(0.5, 0)`), another percentage is its fraction as scale, a `px`
/// length is its offset, and anything else gives no rounding.
pub proof fn law_corner_radius(value: Seq<char>, t: STable)
    ensures
        ({
            let v = trim(value);
            let l = lit_or(strip_suffixes(v, "%"@), "0"@);
            &&& ends_with(v, "%"@) ==> (num(t, NumOp::NearFifty, l) == Ok::<Seq<char>, SHalt>("true"@)
                ==> corner(value, t) == Ok::<Seq<char>, SHalt>("UDim.new(0.5, 0)"@))
            &&& ends_with(v, "%"@) ==> (num(t, NumOp::NearFifty, l) matches Ok(near) ==> (near != "true"@
                ==> corner(value, t) == wrapped("UDim.new("@, num(t, NumOp::Percent, l), ", 0)"@)))
            &&& !ends_with(v, "%"@) && ends_with(v, "px"@) ==> corner(value, t) == wrapped(
                "UDim.new(0, "@,
                num_or(t, NumOp::Show, strip_suffixes(v, "px"@), "0"@),
                ")"@,
            )
            &&& !ends_with(v, "%"@) && !ends_with(v, "px"@) ==> corner(value, t) == Ok::<
                Seq<char>,
                SHalt,
            >("UDim.new(0, 0)"@)
        }),
{
}

} // verus!
