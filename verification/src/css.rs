//! CSS parser: selector lists and their declaration blocks; @-rules
//! (media queries, keyframes, ...) are skipped whole.
use vstd::prelude::*;
use crate::text::{
    chars_of, find, is_ws, lemma_find_from, occurs_at, slice_of, split_char, split_char_v,
    to_string, trim, trim_end, trim_start, trim_v, views,
};
use crate::dom::{keys_unique, law_keys_stay_unique, lemma_pidx, pidx, pinsert, PropMap, SProps};

verus! {

/// One CSS rule: its selectors and its declarations.
pub struct CssRule {
    pub selectors: Vec<String>,
    pub declarations: PropMap,
}

pub struct SRule {
    pub selectors: Seq<Seq<char>>,
    pub decls: SProps,
}

pub open spec fn strings(v: Seq<String>) -> Seq<Seq<char>> {
    v.map_values(|s: String| s@)
}

impl View for CssRule {
    type V = SRule;

    open spec fn view(&self) -> SRule {
        SRule { selectors: strings(self.selectors@), decls: self.declarations@ }
    }
}

pub open spec fn rules_view(v: Seq<CssRule>) -> Seq<SRule> {
    v.map_values(|r: CssRule| r@)
}

pub open spec fn is_css_ws(c: char) -> bool {
    c == ' ' || c == '\n' || c == '\r' || c == '\t'
}

/// The first position at or after `i` that is not a space, newline, return or tab.
pub open spec fn skip_ws(s: Seq<char>, i: int) -> int
    decreases s.len() - i,
{
    if 0 <= i < s.len() && is_css_ws(s[i]) {
        skip_ws(s, i + 1)
    } else {
        i
    }
}

/// The first position at or after `i` holding `c`, or the length.
pub open spec fn to_char(s: Seq<char>, i: int, c: char) -> int
    decreases s.len() - i,
{
    if 0 <= i < s.len() && s[i] != c {
        to_char(s, i + 1, c)
    } else {
        i
    }
}

/// Scanning from `i` with `depth` open braces until they are all closed:
/// the position after the closing brace (or the end) and the depth left.
pub open spec fn close_block(s: Seq<char>, i: int, depth: nat) -> (int, nat)
    decreases s.len() - i,
{
    if i < 0 || i >= s.len() || depth == 0 {
        (i, depth)
    } else {
        let d = if s[i] == '{' {
            depth + 1
        } else if s[i] == '}' {
            (depth - 1) as nat
        } else {
            depth
        };
        close_block(s, i + 1, d)
    }
}

/// The trimmed, non-empty selectors of a selector list.
pub open spec fn selector_list(ps: Seq<Seq<char>>) -> Seq<Seq<char>>
    decreases ps.len(),
{
    if ps.len() == 0 {
        ps
    } else {
        let rest = selector_list(ps.drop_last());
        let p = trim(ps.last());
        if p.len() > 0 {
            rest.push(p)
        } else {
            rest
        }
    }
}

/// One `key: value` part of a declaration block, added to `acc`.
pub open spec fn add_decl(acc: SProps, part: Seq<char>) -> SProps {
    let p = trim(part);
    match find(p, seq![':']) {
        Some(i) => {
            let key = trim(p.take(i));
            let val = trim(p.skip(i + 1));
            if key.len() > 0 {
                pinsert(acc, key, val)
            } else {
                acc
            }
        },
        None => acc,
    }
}

pub open spec fn decls_from(acc: SProps, parts: Seq<Seq<char>>) -> SProps
    decreases parts.len(),
{
    if parts.len() == 0 {
        acc
    } else {
        add_decl(decls_from(acc, parts.drop_last()), parts.last())
    }
}

/// The declarations of a block body, later ones overwriting earlier ones.
pub open spec fn decls(body: Seq<char>) -> SProps {
    decls_from(Seq::empty(), split_char(body, ';'))
}

/// The rules from position `i` on.  A block whose selector list is empty
/// is passed over like any rule without a selector.
pub open spec fn rules_from(s: Seq<char>, i: int) -> Seq<SRule>
    decreases s.len() - i,
{
    let i1 = skip_ws(s, i);
    if i < 0 || i1 < i || i1 >= s.len() {
        Seq::empty()
    } else if s[i1] == '@' {
        let j = to_char(s, i1, '{');
        if j < i1 || j >= s.len() {
            Seq::empty()
        } else {
            let k = close_block(s, j + 1, 1).0;
            if k <= i || k > s.len() {
                Seq::empty()
            } else {
                rules_from(s, k)
            }
        }
    } else {
        let j = to_char(s, i1, '{');
        if j < i1 || j > s.len() {
            Seq::empty()
        } else {
            let sels = selector_list(split_char(trim(s.subrange(i1, j)), ','));
            let k0 = if j < s.len() {
                j + 1
            } else {
                j
            };
            let (k, depth) = close_block(s, k0, 1);
            let body = if depth == 0 && k0 <= k - 1 <= s.len() {
                s.subrange(k0, k - 1)
            } else {
                Seq::empty()
            };
            if k <= i || k > s.len() {
                Seq::empty()
            } else if sels.len() > 0 {
                seq![SRule { selectors: sels, decls: decls(body) }] + rules_from(s, k)
            } else {
                rules_from(s, k)
            }
        }
    }
}

/// `css::parse`: the rules of a style sheet.
pub open spec fn css_rules(s: Seq<char>) -> Seq<SRule> {
    if trim(s).len() == 0 {
        Seq::empty()
    } else {
        rules_from(s, 0)
    }
}

proof fn lemma_skip_ws(s: Seq<char>, i: int)
    requires
        0 <= i,
    ensures
        skip_ws(s, i) >= i,
        skip_ws(s, i) < s.len() ==> !is_css_ws(s[skip_ws(s, i)]),
        i <= s.len() ==> skip_ws(s, i) <= s.len(),
    decreases s.len() - i,
{
    if 0 <= i < s.len() && is_css_ws(s[i]) {
        lemma_skip_ws(s, i + 1);
    }
}

proof fn lemma_to_char(s: Seq<char>, i: int, c: char)
    requires
        0 <= i,
    ensures
        to_char(s, i, c) >= i,
        i <= s.len() ==> to_char(s, i, c) <= s.len(),
        to_char(s, i, c) < s.len() ==> s[to_char(s, i, c)] == c,
    decreases s.len() - i,
{
    if 0 <= i < s.len() && s[i] != c {
        lemma_to_char(s, i + 1, c);
    }
}

proof fn lemma_close_block(s: Seq<char>, i: int, d: nat)
    requires
        0 <= i <= s.len(),
    ensures
        i <= close_block(s, i, d).0 <= s.len(),
        close_block(s, i, d).1 == 0 && d > 0 ==> close_block(s, i, d).0 > i,
    decreases s.len() - i,
{
    if i < s.len() && d != 0 {
        let nd = if s[i] == '{' {
            d + 1
        } else if s[i] == '}' {
            (d - 1) as nat
        } else {
            d
        };
        lemma_close_block(s, i + 1, nd);
    }
}

fn skip_ws_v(s: &Vec<char>, i: usize) -> (r: usize)
    requires
        i <= s.len(),
    ensures
        r == skip_ws(s@, i as int),
{
    let mut j = i;
    while j < s.len() && (s[j] == ' ' || s[j] == '\n' || s[j] == '\r' || s[j] == '\t')
        invariant
            i <= j <= s.len(),
            skip_ws(s@, i as int) == skip_ws(s@, j as int),
        decreases s.len() - j,
    {
        j = j + 1;
    }
    j
}

fn to_char_v(s: &Vec<char>, i: usize, c: char) -> (r: usize)
    requires
        i <= s.len(),
    ensures
        r == to_char(s@, i as int, c),
{
    let mut j = i;
    while j < s.len() && s[j] != c
        invariant
            i <= j <= s.len(),
            to_char(s@, i as int, c) == to_char(s@, j as int, c),
        decreases s.len() - j,
    {
        j = j + 1;
    }
    j
}

fn close_block_v(s: &Vec<char>, i: usize) -> (r: (usize, usize))
    requires
        1 <= i <= s.len(),
    ensures
        (r.0 as int, r.1 as nat) == close_block(s@, i as int, 1),
{
    let mut j = i;
    let mut depth: usize = 1;
    while j < s.len() && depth > 0
        invariant
            1 <= i <= j <= s.len(),
            depth <= j - i + 1,
            close_block(s@, i as int, 1) == close_block(s@, j as int, depth as nat),
        decreases s.len() - j,
    {
        if s[j] == '{' {
            depth = depth + 1;
        } else if s[j] == '}' {
            depth = depth - 1;
        }
        j = j + 1;
    }
    (j, depth)
}

fn selector_list_v(ps: &Vec<Vec<char>>) -> (r: Vec<String>)
    ensures
        strings(r@) == selector_list(views(ps@)),
{
    let mut out: Vec<String> = Vec::new();
    let mut i: usize = 0;
    while i < ps.len()
        invariant
            i <= ps.len(),
            strings(out@) == selector_list(views(ps@).take(i as int)),
        decreases ps.len() - i,
    {
        let p = trim_v(&ps[i]);
        proof {
            assert(views(ps@).take(i + 1).drop_last() =~= views(ps@).take(i as int));
            assert(views(ps@).take(i + 1).last() == ps@[i as int]@);
        }
        if p.len() > 0 {
            let ghost before = out@;
            let st = to_string(&p);
            out.push(st);
            proof {
                assert(strings(out@) =~= strings(before).push(p@));
            }
        }
        i = i + 1;
    }
    assert(views(ps@).take(ps.len() as int) =~= views(ps@));
    out
}

fn add_decl_v(acc: &mut PropMap, part: &Vec<char>)
    ensures
        final(acc)@ == add_decl(old(acc)@, part@),
{
    let p = trim_v(part);
    let colon: Vec<char> = vec![':'];
    assert(colon@ == seq![':']);
    proof {
        crate::text::lemma_find_from(p@, seq![':'], 0);
    }
    match crate::text::find_v(&p, &colon, 0) {
        Some(i) => {
            let key = trim_v(&slice_of(&p, 0, i));
            let val = trim_v(&slice_of(&p, i + 1, p.len()));
            assert(p@.subrange(0, i as int) == p@.take(i as int));
            assert(p@.subrange(i + 1, p@.len() as int) == p@.skip(i + 1));
            if key.len() > 0 {
                acc.insert_v(&key, &val);
            }
        },
        None => {},
    }
}

fn decls_v(body: &Vec<char>) -> (r: PropMap)
    ensures
        r@ == decls(body@),
{
    let parts = split_char_v(body, ';');
    let mut m = PropMap::new();
    let mut i: usize = 0;
    while i < parts.len()
        invariant
            i <= parts.len(),
            m@ == decls_from(Seq::empty(), views(parts@).take(i as int)),
        decreases parts.len() - i,
    {
        proof {
            assert(views(parts@).take(i + 1).drop_last() =~= views(parts@).take(i as int));
            assert(views(parts@).take(i + 1).last() == parts@[i as int]@);
        }
        add_decl_v(&mut m, &parts[i]);
        i = i + 1;
    }
    assert(views(parts@).take(parts.len() as int) =~= views(parts@));
    m
}


/// Parses CSS source into its rules; @-rules are skipped.
pub fn parse(css: &str) -> (r: Vec<CssRule>)
    ensures
        css_rules(css@) == rules_view(r@),
{
    let s = chars_of(css);
    let ts = trim_v(&s);
    if ts.len() == 0 {
        let v: Vec<CssRule> = Vec::new();
        assert(rules_view(v@) =~= Seq::<SRule>::empty());
        return v;
    }
    let mut rules: Vec<CssRule> = Vec::new();
    let mut i: usize = 0;
    proof {
        assert(rules_view(rules@) =~= Seq::<SRule>::empty());
        assert(Seq::<SRule>::empty() + Seq::<SRule>::empty() =~= Seq::<SRule>::empty());
        assert(Seq::<SRule>::empty() + rules_from(s@, 0) =~= rules_from(s@, 0));
    }
    while i < s.len()
        invariant
            i <= s.len(),
            s@ == css@,
            trim(s@).len() != 0,
            rules_view(rules@) + rules_from(s@, i as int) == rules_from(s@, 0),
        decreases s.len() - i,
    {
        let ghost i0 = i as int;
        let i1 = skip_ws_v(&s, i);
        proof {
            lemma_skip_ws(s@, i as int);
        }
        if i1 >= s.len() {
            proof {
                assert(rules_from(s@, i as int) == Seq::<SRule>::empty());
                assert(rules_from(s@, s.len() as int) == Seq::<SRule>::empty());
            }
            i = s.len();
        } else if s[i1] == '@' {
            let j = to_char_v(&s, i1, '{');
            proof {
                lemma_to_char(s@, i1 as int, '{');
            }
            if j < s.len() {
                let (k, _d) = close_block_v(&s, j + 1);
                proof {
                    lemma_close_block(s@, j + 1, 1);
                }
                i = k;
            } else {
                proof {
                    assert(rules_from(s@, i as int) == Seq::<SRule>::empty());
                    assert(rules_from(s@, s.len() as int) == Seq::<SRule>::empty());
                }
                i = s.len();
            }
        } else {
            let j = to_char_v(&s, i1, '{');
            proof {
                lemma_to_char(s@, i1 as int, '{');
            }
            let sel = trim_v(&slice_of(&s, i1, j));
            let pieces = split_char_v(&sel, ',');
            let sels = selector_list_v(&pieces);
            let k0 = if j < s.len() {
                j + 1
            } else {
                j
            };
            let (k, depth) = close_block_v(&s, k0);
            proof {
                lemma_close_block(s@, k0 as int, 1);
            }
            let body = if depth == 0 && k0 + 1 <= k {
                slice_of(&s, k0, k - 1)
            } else {
                Vec::new()
            };
            proof {
                if !(depth == 0 && k0 + 1 <= k) {
                    assert(body@ =~= Seq::<char>::empty());
                }
            }
            if sels.len() > 0 {
                let d = decls_v(&body);
                let rule = CssRule { selectors: sels, declarations: d };
                let ghost before = rules@;
                rules.push(rule);
                proof {
                    assert(rules_view(rules@) =~= rules_view(before).push(rule@));
                    let rest = rules_from(s@, k as int);
                    assert(rules_view(before) + (seq![rule@] + rest) =~= rules_view(rules@)
                        + rest);
                }
            }
            i = k;
        }
        assert(i > i0);
    }
    proof {
        if i == s.len() {
            assert(rules_from(s@, i as int) == Seq::<SRule>::empty());
        }
        assert(rules_view(rules@) + Seq::<SRule>::empty() =~= rules_view(rules@));
    }
    rules
}

/// A rule as the parser makes it: at least one selector, none empty, and
/// each declared property once.
pub open spec fn rule_well_formed(r: SRule) -> bool {
    &&& r.selectors.len() > 0
    &&& forall|i: int| 0 <= i < r.selectors.len() ==> #[trigger] r.selectors[i].len() > 0
    &&& keys_unique(r.decls)
}

proof fn lemma_selector_list(ps: Seq<Seq<char>>)
    ensures
        forall|i: int| 0 <= i < selector_list(ps).len() ==> #[trigger] selector_list(ps)[i].len() > 0,
    decreases ps.len(),
{
    if ps.len() > 0 {
        lemma_selector_list(ps.drop_last());
        let rest = selector_list(ps.drop_last());
        let p = trim(ps.last());
        if p.len() > 0 {
            assert forall|i: int| 0 <= i < rest.push(p).len() implies #[trigger] rest.push(p)[i].len() > 0 by {
                if i < rest.len() {
                    assert(rest.push(p)[i] == rest[i]);
                }
            }
        }
    }
}

proof fn lemma_decls_from(acc: SProps, parts: Seq<Seq<char>>)
    requires
        keys_unique(acc),
    ensures
        keys_unique(decls_from(acc, parts)),
    decreases parts.len(),
{
    if parts.len() > 0 {
        lemma_decls_from(acc, parts.drop_last());
        let a = decls_from(acc, parts.drop_last());
        let p = trim(parts.last());
        if let Some(i) = find(p, seq![':']) {
            law_keys_stay_unique(a, trim(p.take(i)), trim(p.skip(i + 1)));
        }
    }
}

proof fn lemma_rules_from(s: Seq<char>, i: int)
    ensures
        forall|k: int| 0 <= k < rules_from(s, i).len() ==> #[trigger] rule_well_formed(rules_from(s, i)[k]),
    decreases s.len() - i,
{
    let i1 = skip_ws(s, i);
    if i < 0 || i1 < i || i1 >= s.len() {
    } else if s[i1] == '@' {
        let j = to_char(s, i1, '{');
        if j < i1 || j >= s.len() {
        } else {
            let k = close_block(s, j + 1, 1).0;
            if k <= i || k > s.len() {
            } else {
                lemma_rules_from(s, k);
                assert(rules_from(s, i) == rules_from(s, k));
            }
        }
    } else {
        let j = to_char(s, i1, '{');
        if j < i1 || j > s.len() {
        } else {
            let sel = trim(s.subrange(i1, j));
            let sels = selector_list(split_char(sel, ','));
            let k0 = if j < s.len() {
                j + 1
            } else {
                j
            };
            let (k, depth) = close_block(s, k0, 1);
            let body = if depth == 0 && k0 <= k - 1 <= s.len() {
                s.subrange(k0, k - 1)
            } else {
                Seq::empty()
            };
            if k <= i || k > s.len() {
            } else {
                lemma_rules_from(s, k);
                lemma_selector_list(split_char(sel, ','));
                lemma_decls_from(Seq::empty(), split_char(body, ';'));
                let rest = rules_from(s, k);
                if sels.len() > 0 {
                    let r = SRule { selectors: sels, decls: decls(body) };
                    let rs = seq![r] + rest;
                    assert(rule_well_formed(r));
                    assert forall|m: int| 0 <= m < rs.len() implies #[trigger] rule_well_formed(rs[m]) by {
                        if m > 0 {
                            assert(rs[m] == rest[m - 1]);
                        }
                    }
                    assert(rules_from(s, i) == rs);
                } else {
                    assert(rules_from(s, i) == rest);
                }
            }
        }
    }
}

/// Every rule the parser returns has at least one selector, no empty
/// selector, and each declared property once.
pub proof fn law_parsed_rules_well_formed(css: Seq<char>)
    ensures
        forall|k: int| 0 <= k < css_rules(css).len() ==> #[trigger] rule_well_formed(css_rules(css)[k]),
{
    if trim(css).len() > 0 {
        lemma_rules_from(css, 0);
    }
}


/// `c` does not occur in `s`.
pub open spec fn free_of(s: Seq<char>, c: char) -> bool {
    forall|i: int| 0 <= i < s.len() ==> #[trigger] s[i] != c
}

/// A rule as the parser makes it, on the text: each selector is trimmed and
/// holds no `,` or `{`; each property name is non-empty, trimmed and holds no
/// `:` or `;`; each value is trimmed and holds no `;`.
pub open spec fn rule_clean(r: SRule) -> bool {
    &&& forall|i: int|
        0 <= i < r.selectors.len() ==> trim(#[trigger] r.selectors[i]) == r.selectors[i]
            && free_of(r.selectors[i], ',') && free_of(r.selectors[i], '{')
    &&& forall|i: int| 0 <= i < r.decls.len() ==> #[trigger] decl_clean(r.decls[i])
}

pub open spec fn decl_clean(d: (Seq<char>, Seq<char>)) -> bool {
    &&& d.0.len() > 0
    &&& trim(d.0) == d.0
    &&& free_of(d.0, ':')
    &&& free_of(d.0, ';')
    &&& trim(d.1) == d.1
    &&& free_of(d.1, ';')
}

proof fn lemma_free_trim_start(s: Seq<char>, c: char)
    requires
        free_of(s, c),
    ensures
        free_of(trim_start(s), c),
    decreases s.len(),
{
    if s.len() > 0 && is_ws(s[0]) {
        assert forall|i: int| 0 <= i < s.drop_first().len() implies #[trigger] s.drop_first()[i]
            != c by {
            assert(s.drop_first()[i] == s[i + 1]);
        }
        lemma_free_trim_start(s.drop_first(), c);
    }
}

proof fn lemma_free_trim_end(s: Seq<char>, c: char)
    requires
        free_of(s, c),
    ensures
        free_of(trim_end(s), c),
    decreases s.len(),
{
    if s.len() > 0 && is_ws(s.last()) {
        assert forall|i: int| 0 <= i < s.drop_last().len() implies #[trigger] s.drop_last()[i]
            != c by {
            assert(s.drop_last()[i] == s[i]);
        }
        lemma_free_trim_end(s.drop_last(), c);
    }
}

proof fn lemma_free_trim(s: Seq<char>, c: char)
    requires
        free_of(s, c),
    ensures
        free_of(trim(s), c),
{
    lemma_free_trim_start(s, c);
    lemma_free_trim_end(trim_start(s), c);
}

proof fn lemma_trim_start_shape(s: Seq<char>)
    ensures
        trim_start(s).len() > 0 ==> !is_ws(trim_start(s)[0]),
        trim_start(trim_start(s)) == trim_start(s),
    decreases s.len(),
{
    if s.len() > 0 && is_ws(s[0]) {
        lemma_trim_start_shape(s.drop_first());
    }
}

proof fn lemma_trim_end_keeps_first(s: Seq<char>)
    requires
        s.len() > 0 ==> !is_ws(s[0]),
    ensures
        trim_end(s).len() > 0 ==> trim_end(s)[0] == s[0],
        trim_end(s).len() > 0 ==> !is_ws(trim_end(s).last()),
        trim_end(trim_end(s)) == trim_end(s),
    decreases s.len(),
{
    if s.len() > 0 && is_ws(s.last()) {
        if s.len() > 1 {
            assert(s.drop_last()[0] == s[0]);
        }
        lemma_trim_end_keeps_first(s.drop_last());
    }
}

proof fn lemma_trim_idem(s: Seq<char>)
    ensures
        trim(trim(s)) == trim(s),
{
    let a = trim_start(s);
    lemma_trim_start_shape(s);
    lemma_trim_end_keeps_first(a);
    let b = trim_end(a);
    assert(trim_start(b) == b);
}

proof fn lemma_free_take(s: Seq<char>, n: int, c: char)
    requires
        free_of(s, c),
        0 <= n <= s.len(),
    ensures
        free_of(s.take(n), c),
        free_of(s.skip(n), c),
{
    assert forall|i: int| 0 <= i < s.take(n).len() implies #[trigger] s.take(n)[i] != c by {
        assert(s.take(n)[i] == s[i]);
    }
    assert forall|i: int| 0 <= i < s.skip(n).len() implies #[trigger] s.skip(n)[i] != c by {
        assert(s.skip(n)[i] == s[i + n]);
    }
}

proof fn lemma_find_char(s: Seq<char>, c: char)
    ensures
        find(s, seq![c]) matches Some(i) ==> 0 <= i < s.len() && s[i] == c && free_of(s.take(i), c),
        find(s, seq![c]) is None ==> free_of(s, c),
{
    lemma_find_from(s, seq![c], 0);
    if let Some(i) = find(s, seq![c]) {
        assert(s.subrange(i, i + 1)[0] == s[i]);
        assert forall|j: int| 0 <= j < s.take(i).len() implies #[trigger] s.take(i)[j] != c by {
            assert(s.take(i)[j] == s[j]);
            if s[j] == c {
                assert(s.subrange(j, j + 1) =~= seq![c]);
                assert(occurs_at(s, seq![c], j));
            }
        }
    } else {
        assert forall|j: int| 0 <= j < s.len() implies #[trigger] s[j] != c by {
            if s[j] == c {
                assert(s.subrange(j, j + 1) =~= seq![c]);
                assert(occurs_at(s, seq![c], j));
            }
        }
    }
}

proof fn lemma_split_free(s: Seq<char>, c: char, d: char)
    ensures
        forall|k: int| 0 <= k < split_char(s, c).len() ==> free_of(#[trigger] split_char(s, c)[k], c),
        free_of(s, d) ==> forall|k: int|
            0 <= k < split_char(s, c).len() ==> free_of(#[trigger] split_char(s, c)[k], d),
    decreases s.len(),
{
    lemma_find_char(s, c);
    match find(s, seq![c]) {
        Some(i) => {
            if 0 <= i < s.len() {
                let rest = s.skip(i + 1);
                lemma_split_free(rest, c, d);
                lemma_find_char(rest, c);
                if free_of(s, d) {
                    lemma_free_take(s, i, d);
                    lemma_free_take(s, i + 1, d);
                }
                let ps = seq![s.take(i)] + split_char(rest, c);
                assert forall|k: int| 0 <= k < ps.len() implies free_of(#[trigger] ps[k], c) && (
                free_of(s, d) ==> free_of(ps[k], d)) by {
                    if k > 0 {
                        assert(ps[k] == split_char(rest, c)[k - 1]);
                    }
                }
            }
        },
        None => {},
    }
}

proof fn lemma_selector_list_clean(ps: Seq<Seq<char>>)
    requires
        forall|k: int| 0 <= k < ps.len() ==> free_of(#[trigger] ps[k], ',') && free_of(ps[k], '{'),
    ensures
        forall|i: int|
            0 <= i < selector_list(ps).len() ==> trim(#[trigger] selector_list(ps)[i])
                == selector_list(ps)[i] && free_of(selector_list(ps)[i], ',') && free_of(
                selector_list(ps)[i],
                '{',
            ),
    decreases ps.len(),
{
    if ps.len() > 0 {
        let ps0 = ps.drop_last();
        assert forall|k: int| 0 <= k < ps0.len() implies free_of(#[trigger] ps0[k], ',') && free_of(
            ps0[k],
            '{',
        ) by {
            assert(ps0[k] == ps[k]);
        }
        lemma_selector_list_clean(ps0);
        let rest = selector_list(ps0);
        let p = trim(ps.last());
        assert(free_of(ps[ps.len() - 1], ','));
        lemma_free_trim(ps.last(), ',');
        lemma_free_trim(ps.last(), '{');
        lemma_trim_idem(ps.last());
        if p.len() > 0 {
            assert forall|i: int| 0 <= i < rest.push(p).len() implies trim(#[trigger] rest.push(p)[i])
                == rest.push(p)[i] && free_of(rest.push(p)[i], ',') && free_of(rest.push(p)[i], '{') by {
                if i < rest.len() {
                    assert(rest.push(p)[i] == rest[i]);
                }
            }
        }
    }
}

proof fn lemma_add_decl_clean(acc: SProps, part: Seq<char>)
    requires
        free_of(part, ';'),
        forall|i: int| 0 <= i < acc.len() ==> #[trigger] decl_clean(acc[i]),
    ensures
        forall|i: int| 0 <= i < add_decl(acc, part).len() ==> #[trigger] decl_clean(
            add_decl(acc, part)[i],
        ),
{
    let p = trim(part);
    lemma_free_trim(part, ';');
    lemma_find_char(p, ':');
    if let Some(i) = find(p, seq![':']) {
        let key = trim(p.take(i));
        let val = trim(p.skip(i + 1));
        lemma_free_take(p, i, ';');
        lemma_free_take(p, i + 1, ';');
        lemma_free_trim(p.take(i), ';');
        lemma_free_trim(p.take(i), ':');
        lemma_free_trim(p.skip(i + 1), ';');
        lemma_trim_idem(p.take(i));
        lemma_trim_idem(p.skip(i + 1));
        if key.len() > 0 {
            assert(decl_clean((key, val)));
            lemma_pidx(acc, key);
            let r = pinsert(acc, key, val);
            assert forall|m: int| 0 <= m < r.len() implies #[trigger] decl_clean(r[m]) by {
                if m < acc.len() && r[m] != (key, val) {
                    assert(r[m] == acc[m]);
                }
            }
        }
    }
}

proof fn lemma_decls_clean(acc: SProps, parts: Seq<Seq<char>>)
    requires
        forall|k: int| 0 <= k < parts.len() ==> free_of(#[trigger] parts[k], ';'),
        forall|i: int| 0 <= i < acc.len() ==> #[trigger] decl_clean(acc[i]),
    ensures
        forall|i: int| 0 <= i < decls_from(acc, parts).len() ==> #[trigger] decl_clean(
            decls_from(acc, parts)[i],
        ),
    decreases parts.len(),
{
    if parts.len() > 0 {
        let ps0 = parts.drop_last();
        assert forall|k: int| 0 <= k < ps0.len() implies free_of(#[trigger] ps0[k], ';') by {
            assert(ps0[k] == parts[k]);
        }
        lemma_decls_clean(acc, ps0);
        assert(free_of(parts[parts.len() - 1], ';'));
        lemma_add_decl_clean(decls_from(acc, ps0), parts.last());
    }
}

proof fn lemma_to_char_free(s: Seq<char>, i: int, c: char)
    requires
        0 <= i,
    ensures
        forall|j: int| i <= j < to_char(s, i, c) && j < s.len() ==> #[trigger] s[j] != c,
    decreases s.len() - i,
{
    if 0 <= i < s.len() && s[i] != c {
        lemma_to_char_free(s, i + 1, c);
    }
}

proof fn lemma_rules_from_clean(s: Seq<char>, i: int)
    ensures
        forall|k: int| 0 <= k < rules_from(s, i).len() ==> #[trigger] rule_clean(rules_from(s, i)[k]),
    decreases s.len() - i,
{
    let i1 = skip_ws(s, i);
    if i < 0 || i1 < i || i1 >= s.len() {
    } else if s[i1] == '@' {
        let j = to_char(s, i1, '{');
        if j < i1 || j >= s.len() {
        } else {
            let k = close_block(s, j + 1, 1).0;
            if k <= i || k > s.len() {
            } else {
                lemma_rules_from_clean(s, k);
                assert(rules_from(s, i) == rules_from(s, k));
            }
        }
    } else {
        let j = to_char(s, i1, '{');
        if j < i1 || j > s.len() {
        } else {
            let raw = s.subrange(i1, j);
            lemma_to_char_free(s, i1, '{');
            assert forall|m: int| 0 <= m < raw.len() implies #[trigger] raw[m] != '{' by {
                assert(raw[m] == s[i1 + m]);
            }
            let sel = trim(raw);
            lemma_free_trim(raw, '{');
            let sels = selector_list(split_char(sel, ','));
            let k0 = if j < s.len() {
                j + 1
            } else {
                j
            };
            let (k, depth) = close_block(s, k0, 1);
            let body = if depth == 0 && k0 <= k - 1 <= s.len() {
                s.subrange(k0, k - 1)
            } else {
                Seq::empty()
            };
            if k <= i || k > s.len() {
            } else {
                lemma_rules_from_clean(s, k);
                lemma_split_free(sel, ',', '{');
                lemma_selector_list_clean(split_char(sel, ','));
                lemma_split_free(body, ';', ';');
                lemma_decls_clean(Seq::empty(), split_char(body, ';'));
                let rest = rules_from(s, k);
                if sels.len() > 0 {
                    let r = SRule { selectors: sels, decls: decls(body) };
                    let rs = seq![r] + rest;
                    assert(rule_clean(r));
                    assert forall|m: int| 0 <= m < rs.len() implies #[trigger] rule_clean(rs[m]) by {
                        if m > 0 {
                            assert(rs[m] == rest[m - 1]);
                        }
                    }
                    assert(rules_from(s, i) == rs);
                } else {
                    assert(rules_from(s, i) == rest);
                }
            }
        }
    }
}

/// The parser hands back clean text: every selector is trimmed and holds no
/// `,` or `{`; every property name is non-empty, trimmed and holds no `:` or
/// `;`; every value is trimmed and holds no `;`.
pub proof fn law_parsed_text_is_clean(css: Seq<char>)
    ensures
        forall|k: int| 0 <= k < css_rules(css).len() ==> #[trigger] rule_clean(css_rules(css)[k]),
{
    if trim(css).len() > 0 {
        lemma_rules_from_clean(css, 0);
    }
}

} // verus!
