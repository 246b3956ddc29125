//! The UI tree: one node per Roblox instance.
use vstd::prelude::*;
use crate::text::{chars_of, same, to_string};

verus! {

/// Properties as `(key, value)` pairs, in the order in which the keys first
/// appeared; a key stands at most once in a map that only these operations built.
pub type SProps = Seq<(Seq<char>, Seq<char>)>;

/// Position of the first entry with key `k`.
pub open spec fn pidx(m: SProps, k: Seq<char>) -> Option<int>
    decreases m.len(),
{
    if m.len() == 0 {
        None
    } else if m[0].0 == k {
        Some(0)
    } else {
        match pidx(m.drop_first(), k) {
            Some(i) => Some(i + 1),
            None => None,
        }
    }
}

/// The value stored under `k`.
pub open spec fn pget(m: SProps, k: Seq<char>) -> Option<Seq<char>> {
    match pidx(m, k) {
        Some(i) => Some(m[i].1),
        None => None,
    }
}

pub open spec fn phas(m: SProps, k: Seq<char>) -> bool {
    pidx(m, k) is Some
}

/// Stores `v` under `k`: in place when `k` is present, else at the end.
pub open spec fn pinsert(m: SProps, k: Seq<char>, v: Seq<char>) -> SProps {
    match pidx(m, k) {
        Some(i) => m.update(i, (k, v)),
        None => m.push((k, v)),
    }
}

/// The map without key `k`.
pub open spec fn premove(m: SProps, k: Seq<char>) -> SProps
    decreases m.len(),
{
    if m.len() == 0 {
        m
    } else if m[0].0 == k {
        premove(m.drop_first(), k)
    } else {
        seq![m[0]] + premove(m.drop_first(), k)
    }
}

pub proof fn lemma_pidx(m: SProps, k: Seq<char>)
    ensures
        pidx(m, k) matches Some(i) ==> 0 <= i < m.len() && m[i].0 == k && forall|j: int|
            0 <= j < i ==> m[j].0 != k,
        pidx(m, k) is None ==> forall|j: int| 0 <= j < m.len() ==> m[j].0 != k,
    decreases m.len(),
{
    if m.len() > 0 {
        lemma_pidx(m.drop_first(), k);
        if m[0].0 != k {
            assert forall|j: int| 1 <= j < m.len() implies m[j] == m.drop_first()[j - 1] by {}
        }
    }
}

pub proof fn lemma_pidx_first(m: SProps, k: Seq<char>, i: int)
    requires
        0 <= i < m.len(),
        m[i].0 == k,
        forall|j: int| 0 <= j < i ==> m[j].0 != k,
    ensures
        pidx(m, k) == Some(i),
{
    lemma_pidx(m, k);
    if let Some(x) = pidx(m, k) {
        assert(x == i);
    }
}

/// A property map: `(key, value)` entries in the order in which the keys
/// first appeared, each key once.
#[derive(Debug)]
pub struct PropMap {
    entries: Vec<(String, String)>,
}

impl View for PropMap {
    type V = SProps;

    closed spec fn view(&self) -> SProps {
        self.entries@.map_values(|e: (String, String)| (e.0@, e.1@))
    }
}

impl PropMap {
    /// Each key stands once.
    #[verifier::type_invariant]
    spec fn well_formed(self) -> bool {
        keys_unique(self@)
    }

    pub fn new() -> (r: PropMap)
        ensures
            r@ == Seq::<(Seq<char>, Seq<char>)>::empty(),
    {
        let r = PropMap { entries: Vec::new() };
        assert(r@ =~= Seq::<(Seq<char>, Seq<char>)>::empty());
        r
    }

    /// Position of the first entry with key `k`.
    pub fn find(&self, k: &Vec<char>) -> (r: Option<usize>)
        ensures
            r matches Some(i) ==> pidx(self@, k@) == Some(i as int),
            r is None ==> pidx(self@, k@) is None,
    {
        let mut i: usize = 0;
        while i < self.entries.len()
            invariant
                i <= self.entries.len(),
                forall|j: int| 0 <= j < i ==> self@[j].0 != k@,
            decreases self.entries.len() - i,
        {
            let kc = chars_of(self.entries[i].0.as_str());
            assert(self@[i as int].0 == kc@);
            if same(&kc, k) {
                proof {
                    lemma_pidx_first(self@, k@, i as int);
                }
                return Some(i);
            }
            i = i + 1;
        }
        proof {
            lemma_pidx(self@, k@);
        }
        None
    }

    /// The value under `k`.
    pub fn get_v(&self, k: &Vec<char>) -> (r: Option<Vec<char>>)
        ensures
            r matches Some(v) ==> pget(self@, k@) == Some(v@),
            r is None ==> pget(self@, k@) is None,
    {
        let f = self.find(k);
        proof {
            lemma_pidx(self@, k@);
        }
        match f {
            Some(i) => {
                assert(self@[i as int].1 == self.entries@[i as int].1@);
                Some(chars_of(self.entries[i].1.as_str()))
            },
            None => None,
        }
    }

    /// The value under `k`.
    pub fn get(&self, k: &str) -> (r: Option<Vec<char>>)
        ensures
            r matches Some(v) ==> pget(self@, k@) == Some(v@),
            r is None ==> pget(self@, k@) is None,
    {
        let kv = chars_of(k);
        self.get_v(&kv)
    }

    pub fn contains_key(&self, k: &str) -> (r: bool)
        ensures
            r == phas(self@, k@),
    {
        let kv = chars_of(k);
        self.find(&kv).is_some()
    }

    /// Stores `v` under `k`.
    pub fn insert_v(&mut self, k: &Vec<char>, v: &Vec<char>)
        ensures
            final(self)@ == pinsert(old(self)@, k@, v@),
    {
        proof {
            use_type_invariant(&*self);
            law_keys_stay_unique(self@, k@, v@);
        }
        let ks = to_string(k);
        let vs = to_string(v);
        let f = self.find(k);
        proof {
            lemma_pidx(self@, k@);
        }
        let mut es: Vec<(String, String)> = Vec::new();
        std::mem::swap(&mut es, &mut self.entries);
        let ghost before = es@;
        match f {
            Some(i) => {
                es.set(i, (ks, vs));
                assert(es@.map_values(|e: (String, String)| (e.0@, e.1@)) =~= old(self)@.update(
                    i as int,
                    (k@, v@),
                ));
            },
            None => {
                es.push((ks, vs));
                assert(es@.map_values(|e: (String, String)| (e.0@, e.1@)) =~= old(self)@.push(
                    (k@, v@),
                ));
            },
        }
        self.entries = es;
    }

    /// Stores `v` under `k`.
    pub fn insert(&mut self, k: &str, v: &str)
        ensures
            final(self)@ == pinsert(old(self)@, k@, v@),
    {
        let kv = chars_of(k);
        let vv = chars_of(v);
        self.insert_v(&kv, &vv);
    }

    /// Removes key `k`.
    pub fn remove(&mut self, k: &str)
        ensures
            final(self)@ == premove(old(self)@, k@),
    {
        proof {
            use_type_invariant(&*self);
            law_keys_stay_unique(self@, k@, k@);
        }
        let kv = chars_of(k);
        let mut kept: Vec<(String, String)> = Vec::new();
        let ghost m = self@;
        let mut i: usize = 0;
        proof {
            assert(m.skip(0) =~= m);
            assert(kept@.map_values(|e: (String, String)| (e.0@, e.1@)) =~= Seq::<
                (Seq<char>, Seq<char>),
            >::empty());
        }
        while i < self.entries.len()
            invariant
                i <= self.entries.len(),
                m == self@,
                kept@.map_values(|e: (String, String)| (e.0@, e.1@)) + premove(
                    m.skip(i as int),
                    kv@,
                ) == premove(m, kv@),
            decreases self.entries.len() - i,
        {
            let kc = chars_of(self.entries[i].0.as_str());
            let ghost t = m.skip(i as int);
            proof {
                assert(t[0] == m[i as int]);
                assert(t.drop_first() =~= m.skip(i + 1));
            }
            if !same(&kc, &kv) {
                let e = (self.entries[i].0.clone(), self.entries[i].1.clone());
                let ghost before = kept@;
                kept.push(e);
                proof {
                    assert(kept@.map_values(|e: (String, String)| (e.0@, e.1@)) =~= before.map_values(
                        |e: (String, String)| (e.0@, e.1@),
                    ).push(m[i as int]));
                    assert(kept@.map_values(|e: (String, String)| (e.0@, e.1@)) + premove(
                        m.skip(i + 1),
                        kv@,
                    ) =~= before.map_values(|e: (String, String)| (e.0@, e.1@)) + premove(
                        t,
                        kv@,
                    ));
                }
            }
            i = i + 1;
        }
        proof {
            assert(m.skip(i as int) =~= Seq::<(Seq<char>, Seq<char>)>::empty());
            assert(kept@.map_values(|e: (String, String)| (e.0@, e.1@)) =~= premove(m, kv@));
        }
        self.entries = kept;
    }

    pub fn clear(&mut self)
        ensures
            final(self)@ == Seq::<(Seq<char>, Seq<char>)>::empty(),
    {
        self.entries = Vec::new();
        assert(final(self)@ =~= Seq::<(Seq<char>, Seq<char>)>::empty());
    }

    pub fn len(&self) -> (r: usize)
        ensures
            r == self@.len(),
    {
        self.entries.len()
    }

    /// The `i`-th entry, as character vectors.
    pub fn entry(&self, i: usize) -> (r: (Vec<char>, Vec<char>))
        requires
            i < self@.len(),
        ensures
            r.0@ == self@[i as int].0,
            r.1@ == self@[i as int].1,
    {
        (chars_of(self.entries[i].0.as_str()), chars_of(self.entries[i].1.as_str()))
    }

    pub fn copy(&self) -> (r: PropMap)
        ensures
            r@ == self@,
    {
        proof {
            use_type_invariant(self);
        }
        let mut es: Vec<(String, String)> = Vec::new();
        let mut i: usize = 0;
        while i < self.entries.len()
            invariant
                i <= self.entries.len(),
                es@.map_values(|e: (String, String)| (e.0@, e.1@)) == self@.take(i as int),
            decreases self.entries.len() - i,
        {
            let e = (self.entries[i].0.clone(), self.entries[i].1.clone());
            let ghost before = es@;
            es.push(e);
            proof {
                assert(es@ == before.push(e));
                assert(es@.map_values(|e: (String, String)| (e.0@, e.1@)) =~= self@.take(i as int).push(
                    self@[i as int],
                ));
                assert(self@.take(i + 1) =~= self@.take(i as int).push(self@[i as int]));
            }
            i = i + 1;
        }
        assert(self@.take(i as int) =~= self@);
        PropMap { entries: es }
    }
}

/// A node of the UI tree, by value.
pub struct SNode {
    pub itype: Seq<char>,
    pub name: Seq<char>,
    pub props: SProps,
    pub children: Seq<SNode>,
    pub helpers: Seq<SNode>,
    pub source_tag: Option<Seq<char>>,
}

/// A single Roblox UI instance; each becomes one `Instance.new(...)` in the
/// generated Luau code.
#[derive(Debug)]
pub struct LuauNode {
    /// The Roblox class name (e.g. "Frame", "TextLabel").
    pub instance_type: String,
    /// The `Name` property of the instance.
    pub name: String,
    /// Roblox properties to set on the instance.
    pub properties: PropMap,
    /// UI nodes nested under the instance.
    pub children: Vec<LuauNode>,
    /// Helper objects (UIListLayout, UIPadding, UICorner, ...).
    pub helpers: Vec<LuauNode>,
    /// Description of the HTML tag the node came from, for comments.
    pub source_tag: Option<String>,
}

pub open spec fn opt_view(o: Option<String>) -> Option<Seq<char>> {
    match o {
        Some(s) => Some(s@),
        None => None,
    }
}

pub open spec fn nview(n: LuauNode) -> SNode
    decreases n,
{
    SNode {
        itype: n.instance_type@,
        name: n.name@,
        props: n.properties@,
        children: nviews(n.children@),
        helpers: nviews(n.helpers@),
        source_tag: opt_view(n.source_tag),
    }
}

pub open spec fn nviews(s: Seq<LuauNode>) -> Seq<SNode>
    decreases s,
{
    if s.len() == 0 {
        Seq::empty()
    } else {
        seq![nview(s[0])] + nviews(s.drop_first())
    }
}

impl View for LuauNode {
    type V = SNode;

    open spec fn view(&self) -> SNode {
        nview(*self)
    }
}

pub proof fn lemma_nviews(s: Seq<LuauNode>)
    ensures
        nviews(s).len() == s.len(),
        forall|i: int| 0 <= i < s.len() ==> #[trigger] nviews(s)[i] == nview(s[i]),
    decreases s.len(),
{
    if s.len() > 0 {
        lemma_nviews(s.drop_first());
        assert forall|i: int| 0 <= i < s.len() implies #[trigger] nviews(s)[i] == nview(s[i]) by {
            if i > 0 {
                assert(s.drop_first()[i - 1] == s[i]);
            }
        }
    }
}

pub proof fn lemma_nviews_push(s: Seq<LuauNode>, x: LuauNode)
    ensures
        nviews(s.push(x)) == nviews(s).push(nview(x)),
{
    lemma_nviews(s);
    lemma_nviews(s.push(x));
    assert(nviews(s.push(x)) =~= nviews(s).push(nview(x)));
}

pub proof fn lemma_nviews_insert0(s: Seq<LuauNode>, x: LuauNode)
    ensures
        nviews(s.insert(0, x)) == seq![nview(x)] + nviews(s),
{
    lemma_nviews(s);
    lemma_nviews(s.insert(0, x));
    assert(nviews(s.insert(0, x)) =~= seq![nview(x)] + nviews(s));
}

/// A node with no properties, children or helpers.
pub open spec fn snew(itype: Seq<char>, name: Seq<char>) -> SNode {
    SNode {
        itype,
        name,
        props: Seq::empty(),
        children: Seq::empty(),
        helpers: Seq::empty(),
        source_tag: None,
    }
}

impl Clone for PropMap {
    fn clone(&self) -> (r: PropMap)
        ensures
            r@ == self@,
    {
        self.copy()
    }
}

impl Default for PropMap {
    fn default() -> (r: PropMap)
        ensures
            r@ == Seq::<(Seq<char>, Seq<char>)>::empty(),
    {
        PropMap::new()
    }
}

fn clone_node(n: &LuauNode) -> (r: LuauNode)
    ensures
        r@ == n@,
    decreases n@,
{
    proof {
        assert(n@.children == nviews(n.children@));
        assert(n@.helpers == nviews(n.helpers@));
        assert(decreases_to!(n@ => n@.children));
        assert(decreases_to!(n@ => n@.helpers));
    }
    let children = clone_nodes(&n.children);
    let helpers = clone_nodes(&n.helpers);
    let source_tag = match &n.source_tag {
        Some(s) => Some(s.clone()),
        None => None,
    };
    let r = LuauNode {
        instance_type: n.instance_type.clone(),
        name: n.name.clone(),
        properties: n.properties.copy(),
        children,
        helpers,
        source_tag,
    };
    assert(r@ =~= n@);
    r
}

fn clone_nodes(v: &Vec<LuauNode>) -> (r: Vec<LuauNode>)
    ensures
        nviews(r@) == nviews(v@),
    decreases nviews(v@),
{
    proof {
        lemma_nviews(v@);
    }
    let mut out: Vec<LuauNode> = Vec::new();
    let mut i: usize = 0;
    while i < v.len()
        invariant
            i <= v.len(),
            nviews(v@).len() == v@.len(),
            forall|j: int| 0 <= j < v@.len() ==> #[trigger] nviews(v@)[j] == nview(v@[j]),
            nviews(out@) == nviews(v@).take(i as int),
        decreases v.len() - i,
    {
        assert(nviews(v@)[i as int] == nview(v@[i as int]));
        assert(decreases_to!(nviews(v@) => nviews(v@)[i as int]));
        let c = clone_node(&v[i]);
        let ghost before = out@;
        out.push(c);
        proof {
            lemma_nviews_push(before, c);
            assert(nviews(v@).take(i + 1) =~= nviews(v@).take(i as int).push(nview(v@[i as int])));
        }
        i = i + 1;
    }
    assert(nviews(v@).take(v.len() as int) =~= nviews(v@));
    out
}

impl Clone for LuauNode {
    fn clone(&self) -> (r: LuauNode)
        ensures
            r@ == self@,
    {
        clone_node(self)
    }
}

impl Default for LuauNode {
    fn default() -> (r: LuauNode)
        ensures
            r@ == snew(Seq::empty(), Seq::empty()),
    {
        let r = LuauNode {
            instance_type: String::new(),
            name: String::new(),
            properties: PropMap::new(),
            children: Vec::new(),
            helpers: Vec::new(),
            source_tag: None,
        };
        assert(r@ =~= snew(Seq::empty(), Seq::empty()));
        r
    }
}

impl LuauNode {
    pub fn new(instance_type: &str, name: &str) -> (r: LuauNode)
        ensures
            r@ == snew(instance_type@, name@),
    {
        let it = chars_of(instance_type);
        let nm = chars_of(name);
        LuauNode::new_v(&it, &nm)
    }

    pub fn new_v(instance_type: &Vec<char>, name: &Vec<char>) -> (r: LuauNode)
        ensures
            r@ == snew(instance_type@, name@),
    {
        let r = LuauNode {
            instance_type: to_string(instance_type),
            name: to_string(name),
            properties: PropMap::new(),
            children: Vec::new(),
            helpers: Vec::new(),
            source_tag: None,
        };
        assert(r@ =~= snew(instance_type@, name@));
        r
    }

    /// Stores `value` under `key`.
    pub fn set_property(&mut self, key: &str, value: &str)
        ensures
            final(self)@ == (SNode { props: pinsert(old(self)@.props, key@, value@), ..old(self)@ }),
    {
        self.properties.insert(key, value);
    }

    pub fn add_child(&mut self, child: LuauNode)
        ensures
            final(self)@ == (SNode { children: old(self)@.children.push(child@), ..old(self)@ }),
    {
        self.children.push(child);
        proof {
            lemma_nviews_push(old(self).children@, child);
        }
    }

    pub fn add_helper(&mut self, helper: LuauNode)
        ensures
            final(self)@ == (SNode { helpers: old(self)@.helpers.push(helper@), ..old(self)@ }),
    {
        self.helpers.push(helper);
        proof {
            lemma_nviews_push(old(self).helpers@, helper);
        }
    }
}

/// No key stands twice.
pub open spec fn keys_unique(m: SProps) -> bool {
    forall|i: int, j: int| 0 <= i < j < m.len() ==> m[i].0 != m[j].0
}

/// A read right after a write under the same key gives the written value;
/// every other key keeps its value.
pub proof fn law_get_after_insert(m: SProps, k: Seq<char>, v: Seq<char>, k2: Seq<char>)
    ensures
        pget(pinsert(m, k, v), k) == Some(v),
        k2 != k ==> pget(pinsert(m, k, v), k2) == pget(m, k2),
{
    lemma_pidx(m, k);
    lemma_pidx(m, k2);
    let m2 = pinsert(m, k, v);
    lemma_pidx(m2, k);
    lemma_pidx(m2, k2);
    match pidx(m, k) {
        Some(i) => {
            lemma_pidx_first(m2, k, i);
            if k2 != k {
                match pidx(m, k2) {
                    Some(j) => {
                        lemma_pidx_first(m2, k2, j);
                    },
                    None => {},
                }
            }
        },
        None => {
            lemma_pidx_first(m2, k, m.len() as int);
            if k2 != k {
                match pidx(m, k2) {
                    Some(j) => {
                        lemma_pidx_first(m2, k2, j);
                    },
                    None => {},
                }
            }
        },
    }
}

proof fn lemma_pget_tail(m: SProps, k: Seq<char>)
    requires
        m.len() > 0,
        m[0].0 != k,
    ensures
        pget(m, k) == pget(m.drop_first(), k),
{
    lemma_pidx(m.drop_first(), k);
    if let Some(i) = pidx(m.drop_first(), k) {
        assert(m[i + 1] == m.drop_first()[i]);
    }
}

/// After a removal the key is absent; every other key keeps its value.
pub proof fn law_get_after_remove(m: SProps, k: Seq<char>, k2: Seq<char>)
    ensures
        pget(premove(m, k), k) is None,
        k2 != k ==> pget(premove(m, k), k2) == pget(m, k2),
    decreases m.len(),
{
    if m.len() > 0 {
        law_get_after_remove(m.drop_first(), k, k2);
        let r = premove(m.drop_first(), k);
        if m[0].0 != k2 {
            lemma_pget_tail(m, k2);
        }
        if m[0].0 != k {
            let r2 = seq![m[0]] + r;
            assert(r2[0] == m[0]);
            assert(r2.drop_first() =~= r);
            lemma_pget_tail(r2, k);
            if m[0].0 != k2 {
                lemma_pget_tail(r2, k2);
            }
        }
    }
}

/// Storing and removing keep every key single.
pub proof fn law_keys_stay_unique(m: SProps, k: Seq<char>, v: Seq<char>)
    requires
        keys_unique(m),
    ensures
        keys_unique(pinsert(m, k, v)),
        keys_unique(premove(m, k)),
{
    lemma_pidx(m, k);
    lemma_premove_sub(m, k);
}

/// What a removal keeps is a subsequence of the map's entries, none under `k`.
proof fn lemma_premove_sub(m: SProps, k: Seq<char>)
    requires
        keys_unique(m),
    ensures
        keys_unique(premove(m, k)),
        forall|i: int|
            #![trigger premove(m, k)[i]]
            0 <= i < premove(m, k).len() ==> premove(m, k)[i].0 != k && exists|j: int|
                0 <= j < m.len() && #[trigger] m[j] == premove(m, k)[i],
    decreases m.len(),
{
    if m.len() > 0 {
        let t = m.drop_first();
        assert(keys_unique(t)) by {
            assert forall|i: int, j: int| 0 <= i < j < t.len() implies t[i].0 != t[j].0 by {
                assert(t[i] == m[i + 1] && t[j] == m[j + 1]);
            }
        }
        lemma_premove_sub(t, k);
        let r = premove(t, k);
        assert forall|i: int| #![trigger r[i]] 0 <= i < r.len() implies exists|j: int|
            1 <= j < m.len() && #[trigger] m[j] == r[i] by {
            let j = choose|j: int| 0 <= j < t.len() && #[trigger] t[j] == r[i];
            assert(m[j + 1] == r[i]);
        }
        if m[0].0 != k {
            let r2 = seq![m[0]] + r;
            assert forall|i: int| #![trigger r2[i]] 0 <= i < r2.len() implies r2[i].0 != k
                && exists|j: int| 0 <= j < m.len() && #[trigger] m[j] == r2[i] by {
                if i == 0 {
                    assert(m[0] == r2[0]);
                } else {
                    assert(r2[i] == r[i - 1]);
                }
            }
            assert forall|i: int, j: int| 0 <= i < j < r2.len() implies r2[i].0 != r2[j].0 by {
                if i == 0 {
                    assert(r2[j] == r[j - 1]);
                    let jj = choose|jj: int| 1 <= jj < m.len() && #[trigger] m[jj] == r[j - 1];
                    assert(m[0].0 != m[jj].0);
                } else {
                    assert(r2[i] == r[i - 1] && r2[j] == r[j - 1]);
                }
            }
        }
    }
}

/// Two trees with the same instances: class, name and children, node by node
/// (properties and helpers aside).
pub open spec fn same_shape(a: SNode, b: SNode) -> bool
    decreases a,
{
    a.itype == b.itype && a.name == b.name && same_kids(a.children, b.children)
}

pub open spec fn same_kids(a: Seq<SNode>, b: Seq<SNode>) -> bool
    decreases a,
{
    a.len() == b.len() && (a.len() > 0 ==> same_shape(a[0], b[0]) && same_kids(
        a.drop_first(),
        b.drop_first(),
    ))
}

pub proof fn lemma_shape_refl(a: SNode)
    ensures
        same_shape(a, a),
    decreases a,
{
    lemma_kids_refl(a.children);
}

pub proof fn lemma_kids_refl(a: Seq<SNode>)
    ensures
        same_kids(a, a),
    decreases a,
{
    if a.len() > 0 {
        lemma_shape_refl(a[0]);
        lemma_kids_refl(a.drop_first());
    }
}

pub proof fn lemma_shape_trans(a: SNode, b: SNode, c: SNode)
    requires
        same_shape(a, b),
        same_shape(b, c),
    ensures
        same_shape(a, c),
    decreases a,
{
    lemma_kids_trans(a.children, b.children, c.children);
}

pub proof fn lemma_kids_trans(a: Seq<SNode>, b: Seq<SNode>, c: Seq<SNode>)
    requires
        same_kids(a, b),
        same_kids(b, c),
    ensures
        same_kids(a, c),
    decreases a,
{
    if a.len() > 0 {
        lemma_shape_trans(a[0], b[0], c[0]);
        lemma_kids_trans(a.drop_first(), b.drop_first(), c.drop_first());
    }
}

} // verus!
