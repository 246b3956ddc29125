//! CSS rules resolved against the UI tree: selectors matched to nodes and the
//! merged declarations mapped to Luau properties.
use vstd::prelude::*;
use crate::text::{
    chars_of, eq_ic, eq_ic_str, lower, same, same_str, starts_with, starts_with_str,
    strip_prefixes, strip_prefixes_str, to_lowercase, trim, trim_v, views, words, words_v,
};
use crate::num::{asks_fresh, fresh_err, resv, Halt, NumTable, SHalt, STable};
use crate::dom::{
    keys_unique, law_get_after_insert, lemma_nviews, lemma_nviews_insert0, lemma_pidx,
    lemma_pidx_first, lemma_shape_refl, nview, nviews, pget, phas, pidx, pinsert, same_kids,
    same_shape, LuauNode, PropMap, SNode, SProps,
};
use crate::html::instance_type;
use crate::css::{css_rules, parse, rules_view, strings, CssRule, SRule};
use crate::mapping::{lemma_map_css_fresh, law_mapped_keys, lemma_phas_at, map_css, map_css_to_luau, roblox_name};

verus! {

/// Tag selectors and the instance types they also match.
pub open spec fn tag_alias(tag: Seq<char>, it: Seq<char>) -> bool {
    ||| (tag == "div"@ && it == "frame"@)
    ||| (tag == "p"@ && it == "textlabel"@)
    ||| (tag == "span"@ && it == "textlabel"@)
    ||| (tag == "button"@ && it == "textbutton"@)
    ||| (tag == "img"@ && it == "imagelabel"@)
    ||| (tag == "imagebutton"@ && it == "imagebutton"@)
    ||| (tag == "input"@ && (it == "textbox"@ || it == "textbutton"@))
    ||| (tag == "textarea"@ && it == "textbox"@)
    ||| (tag == "scroll"@ && it == "scrollingframe"@)
    ||| (tag == "canvas"@ && it == "canvasgroup"@)
    ||| (tag == "viewport"@ && it == "viewportframe"@)
    ||| (tag == "video"@ && it == "videoframe"@)
    ||| (tag == "screengui"@ && it == "screengui"@)
    ||| (tag == "billboard"@ && it == "billboardgui"@)
    ||| (tag == "surface"@ && it == "surfacegui"@)
}

/// `selector_matches`: `#id`, `.class` or a tag name (matched against the
/// instance type, case-insensitively).
pub open spec fn sel_matches(sel: Seq<char>, n: SNode) -> bool {
    let s = trim(sel);
    if starts_with(s, "#"@) {
        let id = strip_prefixes(s, "#"@);
        pget(n.props, "id"@) == Some(id) || n.name == id
    } else if starts_with(s, "."@) {
        let class = strip_prefixes(s, "."@);
        match pget(n.props, "class"@) {
            Some(c) => words(c).contains(class),
            None => false,
        }
    } else {
        let tag = lower(s);
        let it = lower(n.itype);
        it == tag || tag_alias(tag, it)
    }
}

fn tag_alias_v(tag: &Vec<char>, it: &Vec<char>) -> (r: bool)
    ensures
        r == tag_alias(tag@, it@),
{
    (same_str(tag, "div") && same_str(it, "frame")) || (same_str(tag, "p") && same_str(
        it,
        "textlabel",
    )) || (same_str(tag, "span") && same_str(it, "textlabel")) || (same_str(tag, "button")
        && same_str(it, "textbutton")) || (same_str(tag, "img") && same_str(it, "imagelabel"))
        || (same_str(tag, "imagebutton") && same_str(it, "imagebutton")) || (same_str(
        tag,
        "input",
    ) && (same_str(it, "textbox") || same_str(it, "textbutton"))) || (same_str(tag, "textarea")
        && same_str(it, "textbox")) || (same_str(tag, "scroll") && same_str(it, "scrollingframe"))
        || (same_str(tag, "canvas") && same_str(it, "canvasgroup")) || (same_str(tag, "viewport")
        && same_str(it, "viewportframe")) || (same_str(tag, "video") && same_str(it, "videoframe"))
        || (same_str(tag, "screengui") && same_str(it, "screengui")) || (same_str(tag, "billboard")
        && same_str(it, "billboardgui")) || (same_str(tag, "surface") && same_str(it, "surfacegui"))
}

fn any_word(ws: &Vec<Vec<char>>, w: &Vec<char>) -> (r: bool)
    ensures
        r == views(ws@).contains(w@),
{
    let mut i: usize = 0;
    while i < ws.len()
        invariant
            i <= ws.len(),
            forall|j: int| 0 <= j < i ==> ws@[j]@ != w@,
        decreases ws.len() - i,
    {
        if same(&ws[i], w) {
            assert(views(ws@)[i as int] == w@);
            return true;
        }
        i = i + 1;
    }
    assert forall|j: int| 0 <= j < views(ws@).len() implies views(ws@)[j] != w@ by {
        assert(views(ws@)[j] == ws@[j]@);
    }
    false
}

fn sel_matches_v(sel: &Vec<char>, n: &LuauNode) -> (r: bool)
    ensures
        r == sel_matches(sel@, n@),
{
    let s = trim_v(sel);
    if starts_with_str(&s, "#") {
        let id = strip_prefixes_str(&s, "#");
        let by_prop = match n.properties.get("id") {
            Some(v) => same(&v, &id),
            None => false,
        };
        by_prop || same(&chars_of(n.name.as_str()), &id)
    } else if starts_with_str(&s, ".") {
        let class = strip_prefixes_str(&s, ".");
        match n.properties.get("class") {
            Some(c) => any_word(&words_v(&c), &class),
            None => false,
        }
    } else {
        let tag = to_lowercase(&s);
        let it = to_lowercase(&chars_of(n.instance_type.as_str()));
        same(&it, &tag) || tag_alias_v(&tag, &it)
    }
}

/// Tests whether a CSS selector matches a node.
pub fn selector_matches(selector: &str, node: &LuauNode) -> (r: bool)
    ensures
        r == sel_matches(selector@, node@),
{
    sel_matches_v(&chars_of(selector), node)
}

/// Whether one of the rule's selectors matches the node.
pub open spec fn rule_matches(r: SRule, n: SNode) -> bool {
    exists|i: int| 0 <= i < r.selectors.len() && sel_matches(r.selectors[i], n)
}

/// Every entry of `m`, in order, stored into `acc`.
pub open spec fn put_all(acc: SProps, m: SProps) -> SProps
    decreases m.len(),
{
    if m.len() == 0 {
        acc
    } else {
        pinsert(put_all(acc, m.drop_last()), m.last().0, m.last().1)
    }
}

/// The declarations of the matching rules, in rule order.
pub open spec fn matched_decls(acc: SProps, rules: Seq<SRule>, n: SNode) -> SProps
    decreases rules.len(),
{
    if rules.len() == 0 {
        acc
    } else {
        let a = matched_decls(acc, rules.drop_last(), n);
        if rule_matches(rules.last(), n) {
            put_all(a, rules.last().decls)
        } else {
            a
        }
    }
}

/// The node's own properties other than `class` and `id` (any ASCII case).
pub open spec fn put_own(acc: SProps, m: SProps) -> SProps
    decreases m.len(),
{
    if m.len() == 0 {
        acc
    } else {
        let a = put_own(acc, m.drop_last());
        let (k, v) = m.last();
        if !eq_ic(k, "class"@) && !eq_ic(k, "id"@) {
            pinsert(a, k, v)
        } else {
            a
        }
    }
}

/// The CSS properties of a node: matching rules first, then its own
/// properties, which win.
pub open spec fn merged(rules: Seq<SRule>, n: SNode) -> SProps {
    put_own(matched_decls(Seq::empty(), rules, n), n.props)
}

/// What `resolve_node` returns: the node's merged properties mapped to Luau properties,
/// then its children resolved.
pub open spec fn resolved_node(n: SNode, rules: Seq<SRule>, t: STable) -> Result<SNode, SHalt>
    decreases n,
{
    match map_css(merged(rules, n), t) {
        Ok(luau) => match resolve_kids(n.children, rules, t) {
            Ok(ks) => Ok(SNode { props: put_all(Seq::empty(), luau), children: ks, ..n }),
            Err(e) => Err(e),
        },
        Err(e) => Err(e),
    }
}

pub open spec fn resolve_kids(kids: Seq<SNode>, rules: Seq<SRule>, t: STable) -> Result<Seq<SNode>, SHalt>
    decreases kids,
{
    if kids.len() == 0 {
        Ok(Seq::empty())
    } else {
        match resolved_node(kids[0], rules, t) {
            Ok(c) => match resolve_kids(kids.drop_first(), rules, t) {
                Ok(rest) => Ok(seq![c] + rest),
                Err(e) => Err(e),
            },
            Err(e) => Err(e),
        }
    }
}

fn rule_matches_v(r: &CssRule, n: &LuauNode) -> (b: bool)
    ensures
        b == rule_matches(r@, n@),
{
    let mut i: usize = 0;
    while i < r.selectors.len()
        invariant
            i <= r.selectors@.len(),
            forall|j: int| 0 <= j < i ==> !sel_matches(r@.selectors[j], n@),
        decreases r.selectors@.len() - i,
    {
        let s = chars_of(r.selectors[i].as_str());
        assert(r@.selectors[i as int] == s@);
        if sel_matches_v(&s, n) {
            return true;
        }
        i = i + 1;
    }
    false
}

pub(crate) fn put_all_v(acc: &mut PropMap, m: &PropMap)
    ensures
        final(acc)@ == put_all(old(acc)@, m@),
{
    let mut i: usize = 0;
    while i < m.len()
        invariant
            i <= m@.len(),
            acc@ == put_all(old(acc)@, m@.take(i as int)),
        decreases m@.len() - i,
    {
        let (k, v) = m.entry(i);
        proof {
            assert(m@.take(i + 1).drop_last() =~= m@.take(i as int));
            assert(m@.take(i + 1).last() == m@[i as int]);
        }
        acc.insert_v(&k, &v);
        i = i + 1;
    }
    assert(m@.take(m@.len() as int) =~= m@);
}

fn merged_v(rules: &Vec<CssRule>, n: &LuauNode) -> (r: PropMap)
    ensures
        r@ == merged(rules_view(rules@), n@),
{
    let mut m = PropMap::new();
    let mut i: usize = 0;
    while i < rules.len()
        invariant
            i <= rules@.len(),
            m@ == matched_decls(Seq::empty(), rules_view(rules@).take(i as int), n@),
        decreases rules@.len() - i,
    {
        proof {
            assert(rules_view(rules@).take(i + 1).drop_last() =~= rules_view(rules@).take(i as int));
            assert(rules_view(rules@).take(i + 1).last() == rules@[i as int]@);
        }
        if rule_matches_v(&rules[i], n) {
            put_all_v(&mut m, &rules[i].declarations);
        }
        i = i + 1;
    }
    assert(rules_view(rules@).take(rules@.len() as int) =~= rules_view(rules@));
    let p = &n.properties;
    let mut j: usize = 0;
    let ghost base = m@;
    while j < p.len()
        invariant
            j <= p@.len(),
            m@ == put_own(base, p@.take(j as int)),
        decreases p@.len() - j,
    {
        let (k, v) = p.entry(j);
        proof {
            assert(p@.take(j + 1).drop_last() =~= p@.take(j as int));
            assert(p@.take(j + 1).last() == p@[j as int]);
        }
        if !eq_ic_str(&k, "class") && !eq_ic_str(&k, "id") {
            m.insert_v(&k, &v);
        }
        j = j + 1;
    }
    assert(p@.take(p@.len() as int) =~= p@);
    m
}

fn resolve_node(node: LuauNode, rules: &Vec<CssRule>, t: &NumTable) -> (r: Result<LuauNode, Halt>)
    ensures
        fresh_err(t@, r),
        resv(r) == resolved_node(node@, rules_view(rules@), t@),
    decreases node@,
{
    let mut node = node;
    let ghost n0 = node@;
    let m = merged_v(rules, &node);
    let luau = map_css_to_luau(&m, t)?;
    let mut kids: Vec<LuauNode> = Vec::new();
    std::mem::swap(&mut kids, &mut node.children);
    assert(nviews(kids@) == n0.children);
    let ks = resolve_kids_v(kids, rules, t)?;
    node.properties.clear();
    put_all_v(&mut node.properties, &luau);
    node.children = ks;
    assert(node@ == SNode { props: put_all(Seq::empty(), luau@), children: nviews(ks@), ..n0 });
    Ok(node)
}

proof fn lemma_nviews_first(s: Seq<LuauNode>)
    requires
        s.len() > 0,
    ensures
        nviews(s) == seq![nview(s[0])] + nviews(s.drop_first()),
        nviews(s.remove(0)) == nviews(s.drop_first()),
        nviews(s.drop_first()) == nviews(s).subrange(1, nviews(s).len() as int),
{
    assert(s.remove(0) =~= s.drop_first());
    lemma_nviews(s);
    lemma_nviews(s.drop_first());
    assert(nviews(s.drop_first()) =~= nviews(s).subrange(1, nviews(s).len() as int));
}

fn resolve_kids_v(kids: Vec<LuauNode>, rules: &Vec<CssRule>, t: &NumTable) -> (r: Result<Vec<LuauNode>, Halt>)
    ensures
        fresh_err(t@, r),
        match resolve_kids(nviews(kids@), rules_view(rules@), t@) {
            Ok(ks) => r matches Ok(v) && nviews(v@) == ks,
            Err(e) => r matches Err(h) && h@ == e,
        },
    decreases nviews(kids@),
{
    let mut kids = kids;
    if kids.len() == 0 {
        assert(nviews(kids@) =~= Seq::<SNode>::empty());
        return Ok(Vec::new());
    }
    let ghost k0 = kids@;
    proof {
        lemma_nviews_first(k0);
    }
    let first = kids.remove(0);
    assert(nview(first) == nviews(k0)[0]);
    let c = resolve_node(first, rules, t)?;
    proof {
        vstd::seq::axiom_seq_subrange_decreases(nviews(k0), 1, nviews(k0).len() as int);
        assert(nviews(kids@) == nviews(k0).drop_first());
    }
    let mut rest = resolve_kids_v(kids, rules, t)?;
    let ghost r0 = rest@;
    rest.insert(0, c);
    proof {
        lemma_nviews_insert0(r0, c);
    }
    Ok(rest)
}

/// The rules of the style sheet resolved against the whole tree.
pub open spec fn resolve_spec(dom: SNode, css: Seq<char>, t: STable) -> Result<SNode, SHalt> {
    resolved_node(dom, css_rules(css), t)
}

/// Parses the CSS and resolves all its rules against the tree.
pub fn resolve(dom: &mut LuauNode, css_input: &str, t: &NumTable) -> (r: Result<(), Halt>)
    ensures
        fresh_err(t@, r),
        match resolve_spec(old(dom)@, css_input@, t@) {
            Ok(n) => r is Ok && final(dom)@ == n,
            Err(e) => r matches Err(h) && h@ == e,
        },
{
    let rules = parse(css_input);
    let mut cur = LuauNode::new("", "");
    std::mem::swap(&mut cur, dom);
    let n = resolve_node(cur, &rules, t)?;
    *dom = n;
    Ok(())
}

proof fn lemma_resolved_shape(n: SNode, rules: Seq<SRule>, t: STable)
    ensures
        resolved_node(n, rules, t) matches Ok(d) ==> same_shape(n, d),
    decreases n,
{
    lemma_resolve_kids_shape(n.children, rules, t);
}

proof fn lemma_resolve_kids_shape(kids: Seq<SNode>, rules: Seq<SRule>, t: STable)
    ensures
        resolve_kids(kids, rules, t) matches Ok(ks) ==> same_kids(kids, ks),
    decreases kids,
{
    if kids.len() > 0 {
        lemma_resolved_shape(kids[0], rules, t);
        lemma_resolve_kids_shape(kids.drop_first(), rules, t);
        if let Ok(c) = resolved_node(kids[0], rules, t) {
            if let Ok(rest) = resolve_kids(kids.drop_first(), rules, t) {
                let ks = seq![c] + rest;
                assert(ks[0] == c);
                assert(ks.drop_first() =~= rest);
            }
        }
    }
}

/// Resolving the style sheet changes properties only: every node keeps its
/// class, its name and its children.
pub proof fn law_resolve_keeps_shape(dom: SNode, css: Seq<char>, t: STable)
    ensures
        resolve_spec(dom, css, t) matches Ok(d) ==> same_shape(dom, d),
{
    lemma_resolved_shape(dom, css_rules(css), t);
}

proof fn lemma_pget_push(m: SProps, x: (Seq<char>, Seq<char>), k: Seq<char>)
    ensures
        pget(m.push(x), k) == if phas(m, k) {
            pget(m, k)
        } else if x.0 == k {
            Some(x.1)
        } else {
            None
        },
{
    let m2 = m.push(x);
    lemma_pidx(m, k);
    lemma_pidx(m2, k);
    if let Some(i) = pidx(m, k) {
        assert(m2[i] == m[i]);
        assert forall|j: int| 0 <= j < i implies m2[j].0 != k by {
            assert(m2[j] == m[j]);
        }
        lemma_pidx_first(m2, k, i);
    } else if x.0 == k {
        assert forall|j: int| 0 <= j < m.len() implies m2[j].0 != k by {
            assert(m2[j] == m[j]);
        }
        lemma_pidx_first(m2, k, m.len() as int);
    } else {
        assert forall|j: int| 0 <= j < m2.len() implies m2[j].0 != k by {
            if j < m.len() {
                assert(m2[j] == m[j]);
            }
        }
        if let Some(i) = pidx(m2, k) {
            assert(false);
        }
    }
}

proof fn lemma_put_own(acc: SProps, m: SProps, k: Seq<char>)
    requires
        keys_unique(m),
        phas(m, k),
        !eq_ic(k, "class"@),
        !eq_ic(k, "id"@),
    ensures
        pget(put_own(acc, m), k) == pget(m, k),
    decreases m.len(),
{
    let m0 = m.drop_last();
    let x = m.last();
    assert(m0.push(x) =~= m);
    lemma_pget_push(m0, x, k);
    lemma_pidx(m, k);
    lemma_pidx(m0, k);
    let a = put_own(acc, m0);
    law_get_after_insert(a, x.0, x.1, k);
    if x.0 == k {
        if phas(m0, k) {
            let i = pidx(m0, k)->0;
            assert(m[i].0 == m[m.len() - 1].0);
            assert(false);
        }
    } else {
        if !phas(m0, k) {
            assert(false);
        }
        assert(keys_unique(m0)) by {
            assert forall|i: int, j: int| 0 <= i < j < m0.len() implies m0[i].0 != m0[j].0 by {
                assert(m0[i] == m[i] && m0[j] == m[j]);
            }
        }
        lemma_put_own(acc, m0, k);
    }
}

/// A node's own properties (all but `class` and `id`) win over every CSS
/// rule that matches it.
pub proof fn law_own_properties_win(rules: Seq<SRule>, n: SNode, k: Seq<char>)
    requires
        keys_unique(n.props),
        phas(n.props, k),
        !eq_ic(k, "class"@),
        !eq_ic(k, "id"@),
    ensures
        pget(merged(rules, n), k) == pget(n.props, k),
{
    lemma_put_own(matched_decls(Seq::empty(), rules, n), n.props, k);
}

proof fn lemma_put_all_hit(acc: SProps, m: SProps, k: Seq<char>)
    requires
        keys_unique(m),
        phas(m, k),
    ensures
        pget(put_all(acc, m), k) == pget(m, k),
    decreases m.len(),
{
    let m0 = m.drop_last();
    let x = m.last();
    assert(m0.push(x) =~= m);
    lemma_pget_push(m0, x, k);
    lemma_pidx(m, k);
    lemma_pidx(m0, k);
    law_get_after_insert(put_all(acc, m0), x.0, x.1, k);
    if x.0 == k {
        if phas(m0, k) {
            let i = pidx(m0, k)->0;
            assert(m[i].0 == m[m.len() - 1].0);
            assert(false);
        }
    } else {
        if !phas(m0, k) {
            assert(false);
        }
        assert(keys_unique(m0)) by {
            assert forall|i: int, j: int| 0 <= i < j < m0.len() implies m0[i].0 != m0[j].0 by {
                assert(m0[i] == m[i] && m0[j] == m[j]);
            }
        }
        lemma_put_all_hit(acc, m0, k);
    }
}

proof fn lemma_put_own_miss(acc: SProps, m: SProps, k: Seq<char>)
    requires
        !phas(m, k),
    ensures
        pget(put_own(acc, m), k) == pget(acc, k),
    decreases m.len(),
{
    if m.len() > 0 {
        let m0 = m.drop_last();
        let x = m.last();
        assert(m0.push(x) =~= m);
        lemma_pget_push(m0, x, k);
        lemma_pidx(m, k);
        lemma_pidx(m0, k);
        if phas(m0, k) {
            let i = pidx(m0, k)->0;
            assert(m[i] == m0[i]);
        }
        assert(x.0 != k) by {
            if x.0 == k {
                assert(m[m.len() - 1].0 == k);
            }
        }
        lemma_put_own_miss(acc, m0, k);
        law_get_after_insert(put_own(acc, m0), x.0, x.1, k);
    }
}

/// Later rules win: when the last rule of the sheet matches a node and
/// declares a property the node does not set itself, the merged properties
/// hold that rule's value.
pub proof fn law_later_rule_wins(rules: Seq<SRule>, n: SNode, k: Seq<char>)
    requires
        rules.len() > 0,
        rule_matches(rules.last(), n),
        keys_unique(rules.last().decls),
        phas(rules.last().decls, k),
        !phas(n.props, k),
    ensures
        pget(merged(rules, n), k) == pget(rules.last().decls, k),
{
    let before = matched_decls(Seq::empty(), rules.drop_last(), n);
    lemma_put_all_hit(before, rules.last().decls, k);
    lemma_put_own_miss(matched_decls(Seq::empty(), rules, n), n.props, k);
}


/// No rule declares a property named `class` or `id`.
pub open spec fn rules_free_of_class_id(rules: Seq<SRule>) -> bool {
    forall|r: int, j: int|
        0 <= r < rules.len() && 0 <= j < rules[r].decls.len() ==> #[trigger] rules[r].decls[j].0
            != "class"@ && rules[r].decls[j].0 != "id"@
}

/// No node of the tree has a `class` or an `id` property.
pub open spec fn class_id_gone(n: SNode) -> bool
    decreases n,
{
    !phas(n.props, "class"@) && !phas(n.props, "id"@) && kids_class_id_gone(n.children)
}

pub open spec fn kids_class_id_gone(ks: Seq<SNode>) -> bool
    decreases ks,
{
    ks.len() == 0 || (class_id_gone(ks[0]) && kids_class_id_gone(ks.drop_first()))
}

proof fn lemma_put_all_keys(acc: SProps, m: SProps, k: Seq<char>)
    ensures
        phas(put_all(acc, m), k) ==> phas(acc, k) || phas(m, k),
    decreases m.len(),
{
    if m.len() > 0 {
        let a = put_all(acc, m.drop_last());
        lemma_put_all_keys(acc, m.drop_last(), k);
        law_get_after_insert(a, m.last().0, m.last().1, k);
        lemma_pidx(m.drop_last(), k);
        if let Some(i) = pidx(m.drop_last(), k) {
            lemma_phas_at(m, i);
        }
        lemma_phas_at(m, m.len() - 1);
    }
}

proof fn lemma_decls_free(d: SProps, k: Seq<char>)
    requires
        forall|j: int| 0 <= j < d.len() ==> #[trigger] d[j].0 != k,
    ensures
        !phas(d, k),
{
    lemma_pidx(d, k);
}

proof fn lemma_matched_free(acc: SProps, rules: Seq<SRule>, n: SNode, k: Seq<char>)
    requires
        k == "class"@ || k == "id"@,
        rules_free_of_class_id(rules),
        !phas(acc, k),
    ensures
        !phas(matched_decls(acc, rules, n), k),
    decreases rules.len(),
{
    if rules.len() > 0 {
        let rs = rules.drop_last();
        assert forall|r: int, j: int| 0 <= r < rs.len() && 0 <= j < rs[r].decls.len() implies
            #[trigger] rs[r].decls[j].0 != "class"@ && rs[r].decls[j].0 != "id"@ by {
            assert(rs[r] == rules[r]);
        }
        lemma_matched_free(acc, rs, n, k);
        let last = rules.last();
        assert forall|j: int| 0 <= j < last.decls.len() implies #[trigger] last.decls[j].0 != k by {
            assert(rules[rules.len() - 1].decls[j].0 != "class"@);
        }
        lemma_decls_free(last.decls, k);
        lemma_put_all_keys(matched_decls(acc, rs, n), last.decls, k);
    }
}

proof fn lemma_put_own_free(acc: SProps, m: SProps, k: Seq<char>)
    requires
        k == "class"@ || k == "id"@,
        !phas(acc, k),
    ensures
        !phas(put_own(acc, m), k),
    decreases m.len(),
{
    if m.len() > 0 {
        lemma_put_own_free(acc, m.drop_last(), k);
        let (k2, v) = m.last();
        if !eq_ic(k2, "class"@) && !eq_ic(k2, "id"@) {
            assert(eq_ic(k, k));
            law_get_after_insert(put_own(acc, m.drop_last()), k2, v, k);
        }
    }
}

proof fn lemma_node_free(n: SNode, rules: Seq<SRule>, t: STable)
    requires
        rules_free_of_class_id(rules),
    ensures
        map_css(merged(rules, n), t) matches Ok(luau) ==> !phas(put_all(Seq::empty(), luau), "class"@)
            && !phas(put_all(Seq::empty(), luau), "id"@),
{
    reveal_strlit("class");
    reveal_strlit("id");
    reveal_strlit("display");
    assert(!roblox_name("class"@) && !roblox_name("id"@));
    assert("class"@ != "display"@ && "id"@ != "display"@);
    let e = Seq::<(Seq<char>, Seq<char>)>::empty();
    lemma_matched_free(e, rules, n, "class"@);
    lemma_matched_free(e, rules, n, "id"@);
    lemma_put_own_free(matched_decls(e, rules, n), n.props, "class"@);
    lemma_put_own_free(matched_decls(e, rules, n), n.props, "id"@);
    law_mapped_keys(merged(rules, n), t);
    if let Ok(luau) = map_css(merged(rules, n), t) {
        lemma_put_all_keys(e, luau, "class"@);
        lemma_put_all_keys(e, luau, "id"@);
        assert(!phas(luau, "class"@));
        assert(!phas(luau, "id"@));
    }
}

proof fn lemma_resolved_free(n: SNode, rules: Seq<SRule>, t: STable)
    requires
        rules_free_of_class_id(rules),
    ensures
        resolved_node(n, rules, t) matches Ok(d) ==> class_id_gone(d),
    decreases n,
{
    lemma_node_free(n, rules, t);
    lemma_resolve_kids_free(n.children, rules, t);
}

proof fn lemma_resolve_kids_free(kids: Seq<SNode>, rules: Seq<SRule>, t: STable)
    requires
        rules_free_of_class_id(rules),
    ensures
        resolve_kids(kids, rules, t) matches Ok(ks) ==> kids_class_id_gone(ks),
    decreases kids,
{
    if kids.len() > 0 {
        lemma_resolved_free(kids[0], rules, t);
        lemma_resolve_kids_free(kids.drop_first(), rules, t);
        if let Ok(c) = resolved_node(kids[0], rules, t) {
            if let Ok(rest) = resolve_kids(kids.drop_first(), rules, t) {
                let ks = seq![c] + rest;
                assert(ks[0] == c);
                assert(ks.drop_first() =~= rest);
            }
        }
    }
}

/// After the style sheet is resolved no node keeps a `class` or an `id`
/// property, when no rule of the sheet declares one itself.
pub proof fn law_resolve_drops_class_id(dom: SNode, css: Seq<char>, t: STable)
    requires
        rules_free_of_class_id(css_rules(css)),
    ensures
        resolve_spec(dom, css, t) matches Ok(d) ==> class_id_gone(d),
{
    lemma_resolved_free(dom, css_rules(css), t);
}


proof fn lemma_resolved_fresh(n: SNode, rules: Seq<SRule>, t: STable)
    ensures
        asks_fresh(t, resolved_node(n, rules, t)),
    decreases n,
{
    lemma_map_css_fresh(merged(rules, n), t);
    lemma_resolve_kids_fresh(n.children, rules, t);
}

proof fn lemma_resolve_kids_fresh(kids: Seq<SNode>, rules: Seq<SRule>, t: STable)
    ensures
        asks_fresh(t, resolve_kids(kids, rules, t)),
    decreases kids,
{
    if kids.len() > 0 {
        lemma_resolved_fresh(kids[0], rules, t);
        lemma_resolve_kids_fresh(kids.drop_first(), rules, t);
    }
}

/// Resolving the style sheet stops for a number only when the table lacks it.
pub proof fn lemma_resolve_fresh(dom: SNode, css: Seq<char>, t: STable)
    ensures
        asks_fresh(t, resolve_spec(dom, css, t)),
{
    lemma_resolved_fresh(dom, css_rules(css), t);
}


/// The tag selectors that also name the class their tag becomes.
pub open spec fn aliased_tag(t: Seq<char>) -> bool {
    t == "billboard"@ || t == "button"@ || t == "canvas"@ || t == "div"@ || t == "imagebutton"@ || t == "img"@ || t == "input"@ || t == "p"@ || t == "screengui"@ || t == "scroll"@ || t == "span"@ || t == "surface"@ || t == "textarea"@ || t == "video"@ || t == "viewport"@
}

proof fn lemma_class_names_lower()
    ensures
        lower("BillboardGui"@) == "billboardgui"@,
        lower("CanvasGroup"@) == "canvasgroup"@,
        lower("Frame"@) == "frame"@,
        lower("ImageButton"@) == "imagebutton"@,
        lower("ImageLabel"@) == "imagelabel"@,
        lower("ScreenGui"@) == "screengui"@,
        lower("ScrollingFrame"@) == "scrollingframe"@,
        lower("SurfaceGui"@) == "surfacegui"@,
        lower("TextBox"@) == "textbox"@,
        lower("TextButton"@) == "textbutton"@,
        lower("TextLabel"@) == "textlabel"@,
        lower("VideoFrame"@) == "videoframe"@,
        lower("ViewportFrame"@) == "viewportframe"@,
{
    reveal_strlit("BillboardGui");
    reveal_strlit("billboardgui");
    assert(lower("BillboardGui"@) =~= "billboardgui"@);
    reveal_strlit("CanvasGroup");
    reveal_strlit("canvasgroup");
    assert(lower("CanvasGroup"@) =~= "canvasgroup"@);
    reveal_strlit("Frame");
    reveal_strlit("frame");
    assert(lower("Frame"@) =~= "frame"@);
    reveal_strlit("ImageButton");
    reveal_strlit("imagebutton");
    assert(lower("ImageButton"@) =~= "imagebutton"@);
    reveal_strlit("ImageLabel");
    reveal_strlit("imagelabel");
    assert(lower("ImageLabel"@) =~= "imagelabel"@);
    reveal_strlit("ScreenGui");
    reveal_strlit("screengui");
    assert(lower("ScreenGui"@) =~= "screengui"@);
    reveal_strlit("ScrollingFrame");
    reveal_strlit("scrollingframe");
    assert(lower("ScrollingFrame"@) =~= "scrollingframe"@);
    reveal_strlit("SurfaceGui");
    reveal_strlit("surfacegui");
    assert(lower("SurfaceGui"@) =~= "surfacegui"@);
    reveal_strlit("TextBox");
    reveal_strlit("textbox");
    assert(lower("TextBox"@) =~= "textbox"@);
    reveal_strlit("TextButton");
    reveal_strlit("textbutton");
    assert(lower("TextButton"@) =~= "textbutton"@);
    reveal_strlit("TextLabel");
    reveal_strlit("textlabel");
    assert(lower("TextLabel"@) =~= "textlabel"@);
    reveal_strlit("VideoFrame");
    reveal_strlit("videoframe");
    assert(lower("VideoFrame"@) =~= "videoframe"@);
    reveal_strlit("ViewportFrame");
    reveal_strlit("viewportframe");
    assert(lower("ViewportFrame"@) =~= "viewportframe"@);
}

/// The tag names HTML parsing knows are told apart by their length or by
/// one character.
proof fn lemma_selector_tags_apart()
    ensures
        "a"@.len() == 1,
        "article"@.len() == 7,
        "aside"@.len() == 5,
        "billboard"@.len() == 9,
        "billboardgui"@.len() == 12,
        "button"@.len() == 6,
        "canvas"@.len() == 6,
        "caption"@.len() == 7,
        "div"@.len() == 3,
        "figcaption"@.len() == 10,
        "footer"@.len() == 6,
        "gui"@.len() == 3,
        "h1"@.len() == 2,
        "h2"@.len() == 2,
        "h3"@.len() == 2,
        "h4"@.len() == 2,
        "h5"@.len() == 2,
        "h6"@.len() == 2,
        "header"@.len() == 6,
        "imagebutton"@.len() == 11,
        "img"@.len() == 3,
        "imgbutton"@.len() == 9,
        "input"@.len() == 5,
        "label"@.len() == 5,
        "main"@.len() == 4,
        "nav"@.len() == 3,
        "p"@.len() == 1,
        "picture"@.len() == 7,
        "screengui"@.len() == 9,
        "scroll"@.len() == 6,
        "scrollview"@.len() == 10,
        "section"@.len() == 7,
        "span"@.len() == 4,
        "surface"@.len() == 7,
        "surfacegui"@.len() == 10,
        "textarea"@.len() == 8,
        "video"@.len() == 5,
        "viewport"@.len() == 8,
        "a"@ != "p"@,
        "h1"@ != "h2"@,
        "h1"@ != "h3"@,
        "h1"@ != "h4"@,
        "h1"@ != "h5"@,
        "h1"@ != "h6"@,
        "h2"@ != "h3"@,
        "h2"@ != "h4"@,
        "h2"@ != "h5"@,
        "h2"@ != "h6"@,
        "h3"@ != "h4"@,
        "h3"@ != "h5"@,
        "h3"@ != "h6"@,
        "h4"@ != "h5"@,
        "h4"@ != "h6"@,
        "h5"@ != "h6"@,
        "div"@ != "gui"@,
        "div"@ != "img"@,
        "div"@ != "nav"@,
        "gui"@ != "img"@,
        "gui"@ != "nav"@,
        "img"@ != "nav"@,
        "main"@ != "span"@,
        "aside"@ != "input"@,
        "aside"@ != "label"@,
        "aside"@ != "video"@,
        "input"@ != "label"@,
        "input"@ != "video"@,
        "label"@ != "video"@,
        "button"@ != "canvas"@,
        "button"@ != "footer"@,
        "button"@ != "header"@,
        "button"@ != "scroll"@,
        "canvas"@ != "footer"@,
        "canvas"@ != "header"@,
        "canvas"@ != "scroll"@,
        "footer"@ != "header"@,
        "footer"@ != "scroll"@,
        "header"@ != "scroll"@,
        "article"@ != "caption"@,
        "article"@ != "picture"@,
        "article"@ != "section"@,
        "article"@ != "surface"@,
        "caption"@ != "picture"@,
        "caption"@ != "section"@,
        "caption"@ != "surface"@,
        "picture"@ != "section"@,
        "picture"@ != "surface"@,
        "section"@ != "surface"@,
        "textarea"@ != "viewport"@,
        "billboard"@ != "imgbutton"@,
        "billboard"@ != "screengui"@,
        "imgbutton"@ != "screengui"@,
        "figcaption"@ != "scrollview"@,
        "figcaption"@ != "surfacegui"@,
        "scrollview"@ != "surfacegui"@,
{
    reveal_strlit("a");
    reveal_strlit("article");
    reveal_strlit("aside");
    reveal_strlit("billboard");
    reveal_strlit("billboardgui");
    reveal_strlit("button");
    reveal_strlit("canvas");
    reveal_strlit("caption");
    reveal_strlit("div");
    reveal_strlit("figcaption");
    reveal_strlit("footer");
    reveal_strlit("gui");
    reveal_strlit("h1");
    reveal_strlit("h2");
    reveal_strlit("h3");
    reveal_strlit("h4");
    reveal_strlit("h5");
    reveal_strlit("h6");
    reveal_strlit("header");
    reveal_strlit("imagebutton");
    reveal_strlit("img");
    reveal_strlit("imgbutton");
    reveal_strlit("input");
    reveal_strlit("label");
    reveal_strlit("main");
    reveal_strlit("nav");
    reveal_strlit("p");
    reveal_strlit("picture");
    reveal_strlit("screengui");
    reveal_strlit("scroll");
    reveal_strlit("scrollview");
    reveal_strlit("section");
    reveal_strlit("span");
    reveal_strlit("surface");
    reveal_strlit("surfacegui");
    reveal_strlit("textarea");
    reveal_strlit("video");
    reveal_strlit("viewport");
    assert("a"@[0] != "p"@[0]);
    assert("h1"@[1] != "h2"@[1]);
    assert("h1"@[1] != "h3"@[1]);
    assert("h1"@[1] != "h4"@[1]);
    assert("h1"@[1] != "h5"@[1]);
    assert("h1"@[1] != "h6"@[1]);
    assert("h2"@[1] != "h3"@[1]);
    assert("h2"@[1] != "h4"@[1]);
    assert("h2"@[1] != "h5"@[1]);
    assert("h2"@[1] != "h6"@[1]);
    assert("h3"@[1] != "h4"@[1]);
    assert("h3"@[1] != "h5"@[1]);
    assert("h3"@[1] != "h6"@[1]);
    assert("h4"@[1] != "h5"@[1]);
    assert("h4"@[1] != "h6"@[1]);
    assert("h5"@[1] != "h6"@[1]);
    assert("div"@[0] != "gui"@[0]);
    assert("div"@[0] != "img"@[0]);
    assert("div"@[0] != "nav"@[0]);
    assert("gui"@[0] != "img"@[0]);
    assert("gui"@[0] != "nav"@[0]);
    assert("img"@[0] != "nav"@[0]);
    assert("main"@[0] != "span"@[0]);
    assert("aside"@[0] != "input"@[0]);
    assert("aside"@[0] != "label"@[0]);
    assert("aside"@[0] != "video"@[0]);
    assert("input"@[0] != "label"@[0]);
    assert("input"@[0] != "video"@[0]);
    assert("label"@[0] != "video"@[0]);
    assert("button"@[0] != "canvas"@[0]);
    assert("button"@[0] != "footer"@[0]);
    assert("button"@[0] != "header"@[0]);
    assert("button"@[0] != "scroll"@[0]);
    assert("canvas"@[0] != "footer"@[0]);
    assert("canvas"@[0] != "header"@[0]);
    assert("canvas"@[0] != "scroll"@[0]);
    assert("footer"@[0] != "header"@[0]);
    assert("footer"@[0] != "scroll"@[0]);
    assert("header"@[0] != "scroll"@[0]);
    assert("article"@[0] != "caption"@[0]);
    assert("article"@[0] != "picture"@[0]);
    assert("article"@[0] != "section"@[0]);
    assert("article"@[0] != "surface"@[0]);
    assert("caption"@[0] != "picture"@[0]);
    assert("caption"@[0] != "section"@[0]);
    assert("caption"@[0] != "surface"@[0]);
    assert("picture"@[0] != "section"@[0]);
    assert("picture"@[0] != "surface"@[0]);
    assert("section"@[1] != "surface"@[1]);
    assert("textarea"@[0] != "viewport"@[0]);
    assert("billboard"@[0] != "imgbutton"@[0]);
    assert("billboard"@[0] != "screengui"@[0]);
    assert("imgbutton"@[0] != "screengui"@[0]);
    assert("figcaption"@[0] != "scrollview"@[0]);
    assert("figcaption"@[0] != "surfacegui"@[0]);
    assert("scrollview"@[1] != "surfacegui"@[1]);
}

/// A tag selector matches the nodes its tag becomes: for each tag with a
/// selector alias (div, p, span, button, img, imagebutton, input, textarea,
/// scroll, canvas, viewport, video, screengui, billboard, surface, in any
/// case), the selector matches every node whose class is the one HTML
/// parsing gives that tag, whatever its `type`; and any tag selector
/// matches a node whose class, lower-cased, is the tag.
pub proof fn law_tag_selector_matches_its_class(sel: Seq<char>, ty: Option<Seq<char>>, n: SNode)
    requires
        !starts_with(trim(sel), "#"@),
        !starts_with(trim(sel), "."@),
    ensures
        aliased_tag(lower(trim(sel))) && n.itype == instance_type(trim(sel), ty) ==> sel_matches(
            sel,
            n,
        ),
        lower(n.itype) == lower(trim(sel)) ==> sel_matches(sel, n),
{
    lemma_class_names_lower();
    lemma_selector_tags_apart();
    reveal_strlit("BillboardGui");
    reveal_strlit("CanvasGroup");
    reveal_strlit("Frame");
    reveal_strlit("ImageButton");
    reveal_strlit("ImageLabel");
    reveal_strlit("ScreenGui");
    reveal_strlit("ScrollingFrame");
    reveal_strlit("SurfaceGui");
    reveal_strlit("TextBox");
    reveal_strlit("TextButton");
    reveal_strlit("TextLabel");
    reveal_strlit("VideoFrame");
    reveal_strlit("ViewportFrame");
}


/// `#name` matches a node whose `id` property, or whose name, is `name`;
/// `.name` matches a node whose `class` property lists `name` among its
/// white-space separated words.
pub proof fn law_id_and_class_selectors(sel: Seq<char>, n: SNode)
    ensures
        starts_with(trim(sel), "#"@) ==> (sel_matches(sel, n) <==> (pget(n.props, "id"@) == Some(
            strip_prefixes(trim(sel), "#"@),
        ) || n.name == strip_prefixes(trim(sel), "#"@))),
        starts_with(trim(sel), "."@) ==> (sel_matches(sel, n) <==> (pget(n.props, "class"@) matches Some(
            c,
        ) && words(c).contains(strip_prefixes(trim(sel), "."@)))),
{
    reveal_strlit("#");
    reveal_strlit(".");
    let s = trim(sel);
    if starts_with(s, "."@) {
        assert(s.take(1)[0] == s[0]);
    }
    if starts_with(s, "#"@) {
        assert(s.take(1)[0] == s[0]);
    }
}

} // verus!
