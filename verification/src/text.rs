//! Character-level text toolkit: every operation is stated over `Seq<char>`
//! and implemented on `Vec<char>`.
use vstd::prelude::*;

verus! {

/// Unicode `White_Space`, the set that `char::is_whitespace` and `str::trim` use.
pub open spec fn is_ws(c: char) -> bool {
    ||| c == '\t' || c == '\n' || c == '\u{0B}' || c == '\u{0C}' || c == '\r' || c == ' '
    ||| c == '\u{85}' || c == '\u{A0}' || c == '\u{1680}'
    ||| ('\u{2000}' <= c && c <= '\u{200A}')
    ||| c == '\u{2028}' || c == '\u{2029}' || c == '\u{202F}' || c == '\u{205F}' || c == '\u{3000}'
}

pub fn ws(c: char) -> (r: bool)
    ensures
        r == is_ws(c),
{
    c == '\t' || c == '\n' || c == '\u{0B}' || c == '\u{0C}' || c == '\r' || c == ' ' || c
        == '\u{85}' || c == '\u{A0}' || c == '\u{1680}' || ('\u{2000}' <= c && c <= '\u{200A}')
        || c == '\u{2028}' || c == '\u{2029}' || c == '\u{202F}' || c == '\u{205F}' || c
        == '\u{3000}'
}

pub open spec fn trim_start(s: Seq<char>) -> Seq<char>
    decreases s.len(),
{
    if s.len() > 0 && is_ws(s[0]) {
        trim_start(s.drop_first())
    } else {
        s
    }
}

pub open spec fn trim_end(s: Seq<char>) -> Seq<char>
    decreases s.len(),
{
    if s.len() > 0 && is_ws(s.last()) {
        trim_end(s.drop_last())
    } else {
        s
    }
}

/// `str::trim`: leading and trailing white space removed.
pub open spec fn trim(s: Seq<char>) -> Seq<char> {
    trim_end(trim_start(s))
}

pub open spec fn is_digit(c: char) -> bool {
    '0' <= c && c <= '9'
}

pub open spec fn ascii_lower(c: char) -> char {
    if 'A' <= c && c <= 'Z' {
        ((c as u32) + 32) as char
    } else {
        c
    }
}

/// `str::eq_ignore_ascii_case`.
pub open spec fn eq_ic(a: Seq<char>, b: Seq<char>) -> bool {
    a.len() == b.len() && forall|i: int| 0 <= i < a.len() ==> ascii_lower(a[i]) == ascii_lower(b[i])
}

pub open spec fn starts_with(s: Seq<char>, p: Seq<char>) -> bool {
    p.len() <= s.len() && s.take(p.len() as int) == p
}

pub open spec fn ends_with(s: Seq<char>, p: Seq<char>) -> bool {
    p.len() <= s.len() && s.skip(s.len() - p.len()) == p
}

pub open spec fn occurs_at(s: Seq<char>, p: Seq<char>, i: int) -> bool {
    0 <= i && i + p.len() <= s.len() && s.subrange(i, i + p.len()) == p
}

/// First position at or after `i` where `p` occurs.
pub open spec fn find_from(s: Seq<char>, p: Seq<char>, i: int) -> Option<int>
    decreases s.len() + 1 - i,
{
    if i < 0 || i + p.len() > s.len() {
        None
    } else if occurs_at(s, p, i) {
        Some(i)
    } else {
        find_from(s, p, i + 1)
    }
}

pub open spec fn find(s: Seq<char>, p: Seq<char>) -> Option<int> {
    find_from(s, p, 0)
}

/// `str::contains` with a string pattern.
pub open spec fn contains(s: Seq<char>, p: Seq<char>) -> bool {
    find(s, p) is Some
}

/// `str::trim_start_matches` with a non-empty string pattern.
pub open spec fn strip_prefixes(s: Seq<char>, p: Seq<char>) -> Seq<char>
    decreases s.len(),
{
    if p.len() > 0 && starts_with(s, p) {
        strip_prefixes(s.skip(p.len() as int), p)
    } else {
        s
    }
}

/// `str::trim_end_matches` with a non-empty string pattern.
pub open spec fn strip_suffixes(s: Seq<char>, p: Seq<char>) -> Seq<char>
    decreases s.len(),
{
    if p.len() > 0 && ends_with(s, p) {
        strip_suffixes(s.take(s.len() - p.len()), p)
    } else {
        s
    }
}

/// `str::split` on a single character.
pub open spec fn split_char(s: Seq<char>, c: char) -> Seq<Seq<char>>
    decreases s.len(),
{
    match find(s, seq![c]) {
        Some(i) => if 0 <= i < s.len() {
            seq![s.take(i)] + split_char(s.skip(i + 1), c)
        } else {
            seq![s]
        },
        None => seq![s],
    }
}

/// `str::replace`: every occurrence of the non-empty `from`, left to right, replaced.
pub open spec fn replace(s: Seq<char>, from: Seq<char>, to: Seq<char>) -> Seq<char>
    decreases s.len(),
{
    if from.len() == 0 {
        s
    } else {
        match find(s, from) {
            Some(i) => if 0 <= i && i + from.len() <= s.len() {
                s.take(i) + to + replace(s.skip(i + from.len()), from, to)
            } else {
                s
            },
            None => s,
        }
    }
}

/// Length of the run of non-white-space characters at the start of `s`.
pub open spec fn word_len(s: Seq<char>) -> nat
    decreases s.len(),
{
    if s.len() == 0 || is_ws(s[0]) {
        0
    } else {
        1 + word_len(s.drop_first())
    }
}

/// `str::split_whitespace`: the non-empty runs of non-white-space characters.
pub open spec fn words(s: Seq<char>) -> Seq<Seq<char>>
    decreases s.len(),
{
    if s.len() == 0 {
        Seq::empty()
    } else if is_ws(s[0]) {
        words(s.drop_first())
    } else {
        let n = word_len(s) as int;
        if 0 < n <= s.len() {
            seq![s.take(n)] + words(s.skip(n))
        } else {
            Seq::empty()
        }
    }
}

/// `"    ".repeat(n)`.
pub open spec fn spaces(n: nat) -> Seq<char>
    decreases n,
{
    if n == 0 {
        Seq::empty()
    } else {
        spaces((n - 1) as nat) + seq![' ', ' ', ' ', ' ']
    }
}

/// What `str::to_lowercase` returns (full Unicode case mapping).
pub uninterp spec fn lowercase(s: Seq<char>) -> Seq<char>;

/// What `char::to_uppercase`, collected into a string, returns.
pub uninterp spec fn uppercase_char(c: char) -> Seq<char>;

/// Every character is ASCII.
pub open spec fn all_ascii(s: Seq<char>) -> bool {
    forall|i: int| 0 <= i < s.len() ==> (s[i] as u32) < 0x80
}

/// What `str::to_lowercase` gives: on ASCII text each capital `A`-`Z`
/// lowered to `a`-`z` and every other character kept; on other text the full
/// Unicode case mapping (named `lowercase`).
pub open spec fn lower(s: Seq<char>) -> Seq<char> {
    if all_ascii(s) {
        s.map_values(|c: char| ascii_lower(c))
    } else {
        lowercase(s)
    }
}

/// `str::to_lowercase` on the string of these characters.  The contract
/// names the result (`lowercase`), a function of the characters alone, and
/// states what std documents of ASCII text: each ASCII capital becomes its
/// lower-case letter and every other ASCII character stays; the Unicode case
/// mapping of other text is left unstated.
#[verifier::external_body]
pub(crate) fn to_lowercase(s: &Vec<char>) -> (r: Vec<char>)
    ensures
        r@ == lowercase(s@),
        r@ == lower(s@),
{
    let st: String = s.iter().collect();
    st.to_lowercase().chars().collect()
}

/// `char::to_uppercase`, collected into characters.  The contract names the
/// result (`uppercase_char`), a function of the character alone; the Unicode
/// case mapping itself is left unstated.
#[verifier::external_body]
pub(crate) fn to_uppercase_char(c: char) -> (r: Vec<char>)
    ensures
        r@ == uppercase_char(c),
{
    c.to_uppercase().collect()
}

/// The characters of a string slice.
pub fn chars_of(s: &str) -> (r: Vec<char>)
    ensures
        r@ == s@,
{
    let mut r: Vec<char> = Vec::new();
    for c in it: s.chars()
        invariant
            r@ == it.seq().take(it.index() as int),
    {
        r.push(c);
    }
    r
}

/// `Iterator::collect` into a `String`: the string made of exactly these
/// characters, in order.
#[verifier::external_body]
pub(crate) fn to_string(v: &Vec<char>) -> (r: String)
    ensures
        r@ == v@,
{
    v.iter().collect()
}

pub fn push_all(out: &mut Vec<char>, s: &Vec<char>)
    ensures
        final(out)@ == old(out)@ + s@,
{
    let mut i: usize = 0;
    while i < s.len()
        invariant
            i <= s.len(),
            out@ == old(out)@ + s@.take(i as int),
        decreases s.len() - i,
    {
        out.push(s[i]);
        i = i + 1;
        assert(s@.take(i as int) == s@.take(i - 1) + seq![s@[i - 1]]);
    }
    assert(s@.take(s.len() as int) == s@);
}

pub fn push_str(out: &mut Vec<char>, s: &str)
    ensures
        final(out)@ == old(out)@ + s@,
{
    let v = chars_of(s);
    push_all(out, &v);
}

pub fn concat(a: &Vec<char>, b: &Vec<char>) -> (r: Vec<char>)
    ensures
        r@ == a@ + b@,
{
    let mut r = a.clone();
    assert(r@ == a@);
    push_all(&mut r, b);
    r
}

pub fn copy(s: &Vec<char>) -> (r: Vec<char>)
    ensures
        r@ == s@,
{
    let r = s.clone();
    assert(r@ == s@);
    r
}

pub fn slice_of(s: &Vec<char>, i: usize, j: usize) -> (r: Vec<char>)
    requires
        i <= j <= s.len(),
    ensures
        r@ == s@.subrange(i as int, j as int),
{
    let mut r: Vec<char> = Vec::new();
    let mut k = i;
    while k < j
        invariant
            i <= k <= j,
            j <= s.len(),
            r@ == s@.subrange(i as int, k as int),
        decreases j - k,
    {
        r.push(s[k]);
        k = k + 1;
        assert(s@.subrange(i as int, k as int) == s@.subrange(i as int, k - 1) + seq![s@[k - 1]]);
    }
    r
}

pub fn same(a: &Vec<char>, b: &Vec<char>) -> (r: bool)
    ensures
        r == (a@ == b@),
{
    if a.len() != b.len() {
        return false;
    }
    let mut i: usize = 0;
    while i < a.len()
        invariant
            i <= a.len(),
            a.len() == b.len(),
            forall|j: int| 0 <= j < i ==> a@[j] == b@[j],
        decreases a.len() - i,
    {
        if a[i] != b[i] {
            return false;
        }
        i = i + 1;
    }
    assert(a@ =~= b@);
    true
}

pub fn same_str(a: &Vec<char>, b: &str) -> (r: bool)
    ensures
        r == (a@ == b@),
{
    let bv = chars_of(b);
    same(a, &bv)
}

proof fn lemma_trim_start_skip(s: Seq<char>, i: int)
    requires
        0 <= i < s.len(),
        is_ws(s[i]),
    ensures
        trim_start(s.skip(i)) == trim_start(s.skip(i + 1)),
{
    assert(s.skip(i).drop_first() == s.skip(i + 1));
}

proof fn lemma_trim_end_take(s: Seq<char>, j: int)
    requires
        0 < j <= s.len(),
        is_ws(s[j - 1]),
    ensures
        trim_end(s.take(j)) == trim_end(s.take(j - 1)),
{
    assert(s.take(j).drop_last() == s.take(j - 1));
}

/// Index of the first non-white-space character (or the length).
fn first_non_ws(s: &Vec<char>) -> (r: usize)
    ensures
        r <= s.len(),
        trim_start(s@) == s@.skip(r as int),
{
    let mut i: usize = 0;
    proof {
        assert(s@.skip(0) =~= s@);
    }
    while i < s.len() && ws(s[i])
        invariant
            i <= s.len(),
            trim_start(s@) == trim_start(s@.skip(i as int)),
        decreases s.len() - i,
    {
        proof {
            lemma_trim_start_skip(s@, i as int);
        }
        i = i + 1;
    }
    proof {
        r_trim_start_fix(s@, i as int);
    }
    i
}

proof fn r_trim_start_fix(s: Seq<char>, i: int)
    requires
        0 <= i <= s.len(),
        i == s.len() || !is_ws(s[i]),
    ensures
        trim_start(s.skip(i)) == s.skip(i),
{
}

pub fn trim_start_v(s: &Vec<char>) -> (r: Vec<char>)
    ensures
        r@ == trim_start(s@),
{
    proof {
        assert(s@.skip(0) == s@);
    }
    let i = first_non_ws(s);
    slice_of(s, i, s.len())
}

pub fn trim_end_v(s: &Vec<char>) -> (r: Vec<char>)
    ensures
        r@ == trim_end(s@),
{
    let mut j: usize = s.len();
    proof {
        assert(s@.take(s.len() as int) == s@);
    }
    while j > 0 && ws(s[j - 1])
        invariant
            j <= s.len(),
            trim_end(s@) == trim_end(s@.take(j as int)),
        decreases j,
    {
        proof {
            lemma_trim_end_take(s@, j as int);
        }
        j = j - 1;
    }
    let r = slice_of(s, 0, j);
    assert(r@ == s@.take(j as int));
    r
}

/// `str::trim`.
pub fn trim_v(s: &Vec<char>) -> (r: Vec<char>)
    ensures
        r@ == trim(s@),
{
    let a = trim_start_v(s);
    trim_end_v(&a)
}

} // verus!

verus! {

pub fn lower_ascii(c: char) -> (r: char)
    ensures
        r == ascii_lower(c),
{
    if 'A' <= c && c <= 'Z' {
        ((c as u8) + 32) as char
    } else {
        c
    }
}

} // verus!

verus! {

pub fn eq_ic_v(a: &Vec<char>, b: &Vec<char>) -> (r: bool)
    ensures
        r == eq_ic(a@, b@),
{
    if a.len() != b.len() {
        return false;
    }
    let mut i: usize = 0;
    while i < a.len()
        invariant
            i <= a.len(),
            a.len() == b.len(),
            forall|j: int| 0 <= j < i ==> ascii_lower(a@[j]) == ascii_lower(b@[j]),
        decreases a.len() - i,
    {
        if lower_ascii(a[i]) != lower_ascii(b[i]) {
            return false;
        }
        i = i + 1;
    }
    true
}

pub fn eq_ic_str(a: &Vec<char>, b: &str) -> (r: bool)
    ensures
        r == eq_ic(a@, b@),
{
    let bv = chars_of(b);
    eq_ic_v(a, &bv)
}

/// Whether `p` occurs in `s` at position `i`.
pub fn occurs(s: &Vec<char>, p: &Vec<char>, i: usize) -> (r: bool)
    ensures
        r == occurs_at(s@, p@, i as int),
{
    if i > s.len() || p.len() > s.len() - i {
        return false;
    }
    let mut k: usize = 0;
    while k < p.len()
        invariant
            k <= p.len(),
            i + p.len() <= s.len(),
            forall|j: int| 0 <= j < k ==> s@[i + j] == p@[j],
        decreases p.len() - k,
    {
        if s[i + k] != p[k] {
            assert(s@.subrange(i as int, i + p.len())[k as int] != p@[k as int]);
            return false;
        }
        k = k + 1;
    }
    assert(s@.subrange(i as int, i + p.len()) =~= p@);
    true
}

pub proof fn lemma_find_from(s: Seq<char>, p: Seq<char>, i: int)
    requires
        0 <= i,
    ensures
        find_from(s, p, i) matches Some(k) ==> i <= k && occurs_at(s, p, k) && k + p.len() <= s.len()
            && forall|j: int| i <= j < k ==> !occurs_at(s, p, j),
        find_from(s, p, i) is None ==> forall|j: int| i <= j ==> !occurs_at(s, p, j),
    decreases s.len() + 1 - i,
{
    if i + p.len() > s.len() {
    } else if occurs_at(s, p, i) {
    } else {
        lemma_find_from(s, p, i + 1);
    }
}

pub proof fn lemma_find_skip(s: Seq<char>, p: Seq<char>, a: int, j: int)
    requires
        0 <= a <= s.len(),
        0 <= j,
    ensures
        find_from(s.skip(a), p, j) == (match find_from(s, p, j + a) {
            Some(k) => Some(k - a),
            None => None::<int>,
        }),
    decreases s.len() + 1 - (j + a),
{
    let t = s.skip(a);
    if j + p.len() > t.len() {
    } else {
        assert(t.subrange(j, j + p.len()) =~= s.subrange(j + a, j + a + p.len()));
        if occurs_at(t, p, j) {
        } else {
            lemma_find_skip(s, p, a, j + 1);
        }
    }
}

/// `find_from`: the first position at or after `from` where `p` occurs.
pub fn find_v(s: &Vec<char>, p: &Vec<char>, from: usize) -> (r: Option<usize>)
    ensures
        r matches Some(k) ==> find_from(s@, p@, from as int) == Some(k as int),
        r is None ==> find_from(s@, p@, from as int) is None,
{
    if p.len() == 0 {
        if from <= s.len() {
            assert(s@.subrange(from as int, from as int) =~= p@);
            return Some(from);
        }
        return None;
    }
    let mut i = from;
    while i <= s.len() && p.len() <= s.len() - i
        invariant
            from <= i,
            p@.len() > 0,
            find_from(s@, p@, from as int) == find_from(s@, p@, i as int),
        decreases s.len() + 1 - i,
    {
        if occurs(s, p, i) {
            return Some(i);
        }
        i = i + 1;
    }
    None
}

pub fn contains_v(s: &Vec<char>, p: &Vec<char>) -> (r: bool)
    ensures
        r == contains(s@, p@),
{
    find_v(s, p, 0).is_some()
}

pub fn contains_str(s: &Vec<char>, p: &str) -> (r: bool)
    ensures
        r == contains(s@, p@),
{
    let pv = chars_of(p);
    contains_v(s, &pv)
}

pub fn starts_with_v(s: &Vec<char>, p: &Vec<char>) -> (r: bool)
    ensures
        r == starts_with(s@, p@),
{
    let r = occurs(s, p, 0);
    assert(s@.subrange(0, p@.len() as int) == s@.take(p@.len() as int));
    r
}

pub fn starts_with_str(s: &Vec<char>, p: &str) -> (r: bool)
    ensures
        r == starts_with(s@, p@),
{
    let pv = chars_of(p);
    starts_with_v(s, &pv)
}

pub fn ends_with_v(s: &Vec<char>, p: &Vec<char>) -> (r: bool)
    ensures
        r == ends_with(s@, p@),
{
    if p.len() > s.len() {
        return false;
    }
    let r = occurs(s, p, s.len() - p.len());
    assert(s@.subrange(s@.len() - p@.len(), s@.len() as int) == s@.skip(s@.len() - p@.len()));
    r
}

pub fn ends_with_str(s: &Vec<char>, p: &str) -> (r: bool)
    ensures
        r == ends_with(s@, p@),
{
    let pv = chars_of(p);
    ends_with_v(s, &pv)
}

pub fn strip_prefixes_v(s: &Vec<char>, p: &Vec<char>) -> (r: Vec<char>)
    ensures
        r@ == strip_prefixes(s@, p@),
{
    if p.len() == 0 {
        return copy(s);
    }
    let mut i: usize = 0;
    proof {
        assert(s@.skip(0) =~= s@);
    }
    while i <= s.len() && p.len() <= s.len() - i && occurs(s, p, i)
        invariant
            i <= s.len(),
            p@.len() > 0,
            strip_prefixes(s@, p@) == strip_prefixes(s@.skip(i as int), p@),
        decreases s.len() - i,
    {
        proof {
            let t = s@.skip(i as int);
            assert(t.take(p@.len() as int) =~= s@.subrange(i as int, i + p@.len()));
            assert(t.skip(p@.len() as int) =~= s@.skip(i + p@.len()));
        }
        i = i + p.len();
    }
    proof {
        let t = s@.skip(i as int);
        if p@.len() <= t.len() {
            assert(t.take(p@.len() as int) =~= s@.subrange(i as int, i + p@.len()));
        }
    }
    slice_of(s, i, s.len())
}

pub fn strip_prefixes_str(s: &Vec<char>, p: &str) -> (r: Vec<char>)
    ensures
        r@ == strip_prefixes(s@, p@),
{
    let pv = chars_of(p);
    strip_prefixes_v(s, &pv)
}

pub fn strip_suffixes_v(s: &Vec<char>, p: &Vec<char>) -> (r: Vec<char>)
    ensures
        r@ == strip_suffixes(s@, p@),
{
    if p.len() == 0 {
        return copy(s);
    }
    let mut j: usize = s.len();
    proof {
        assert(s@.take(s.len() as int) =~= s@);
    }
    while p.len() <= j && occurs(s, p, j - p.len())
        invariant
            j <= s.len(),
            p@.len() > 0,
            strip_suffixes(s@, p@) == strip_suffixes(s@.take(j as int), p@),
        decreases j,
    {
        proof {
            let t = s@.take(j as int);
            assert(t.skip(t.len() - p@.len()) =~= s@.subrange(j - p@.len(), j as int));
            assert(t.take(t.len() - p@.len()) =~= s@.take(j - p@.len()));
        }
        j = j - p.len();
    }
    proof {
        let t = s@.take(j as int);
        if p@.len() <= t.len() {
            assert(t.skip(t.len() - p@.len()) =~= s@.subrange(j - p@.len(), j as int));
        }
    }
    slice_of(s, 0, j)
}

pub fn strip_suffixes_str(s: &Vec<char>, p: &str) -> (r: Vec<char>)
    ensures
        r@ == strip_suffixes(s@, p@),
{
    let pv = chars_of(p);
    strip_suffixes_v(s, &pv)
}

/// The views of a vector of character vectors.
pub open spec fn views(v: Seq<Vec<char>>) -> Seq<Seq<char>> {
    v.map_values(|x: Vec<char>| x@)
}

pub proof fn lemma_views_push(v: Seq<Vec<char>>, x: Vec<char>)
    ensures
        views(v.push(x)) == views(v).push(x@),
{
    assert(views(v.push(x)) =~= views(v).push(x@));
}

/// `str::split` on one character.
pub fn split_char_v(s: &Vec<char>, c: char) -> (r: Vec<Vec<char>>)
    ensures
        views(r@) == split_char(s@, c),
{
    let mut pieces: Vec<Vec<char>> = Vec::new();
    let mut start: usize = 0;
    let pat: Vec<char> = vec![c];
    assert(pat@ == seq![c]);
    proof {
        assert(s@.skip(0) =~= s@);
    }
    loop
        invariant
            start <= s.len(),
            pat@ == seq![c],
            views(pieces@) + split_char(s@.skip(start as int), c) == split_char(s@, c),
        decreases s.len() - start,
    {
        let ghost t = s@.skip(start as int);
        proof {
            lemma_find_skip(s@, seq![c], start as int, 0);
            lemma_find_from(s@, seq![c], start as int);
        }
        match find_v(s, &pat, start) {
            Some(k) => {
                let piece = slice_of(s, start, k);
                proof {
                    assert(t.take(k - start) =~= piece@);
                    assert(t.skip(k - start + 1) =~= s@.skip(k + 1));
                    lemma_views_push(pieces@, piece);
                    assert(split_char(t, c) == seq![piece@] + split_char(s@.skip(k + 1), c));
                    assert(views(pieces@.push(piece)) + split_char(s@.skip(k + 1), c) =~= views(
                        pieces@,
                    ) + split_char(t, c));
                }
                pieces.push(piece);
                start = k + 1;
            },
            None => {
                let piece = slice_of(s, start, s.len());
                proof {
                    assert(piece@ =~= t);
                    lemma_views_push(pieces@, piece);
                    assert(views(pieces@.push(piece)) =~= views(pieces@) + split_char(t, c));
                }
                pieces.push(piece);
                return pieces;
            },
        }
    }
}

} // verus!

verus! {

/// `str::replace`.
pub fn replace_v(s: &Vec<char>, from: &Vec<char>, to: &Vec<char>) -> (r: Vec<char>)
    ensures
        r@ == replace(s@, from@, to@),
{
    if from.len() == 0 {
        return copy(s);
    }
    let mut out: Vec<char> = Vec::new();
    let mut start: usize = 0;
    proof {
        assert(s@.skip(0) =~= s@);
    }
    loop
        invariant
            start <= s.len(),
            from@.len() > 0,
            out@ + replace(s@.skip(start as int), from@, to@) == replace(s@, from@, to@),
        decreases s.len() - start,
    {
        let ghost t = s@.skip(start as int);
        proof {
            lemma_find_skip(s@, from@, start as int, 0);
            lemma_find_from(s@, from@, start as int);
        }
        match find_v(s, from, start) {
            Some(k) => {
                let piece = slice_of(s, start, k);
                let ghost old_out = out@;
                push_all(&mut out, &piece);
                push_all(&mut out, to);
                proof {
                    assert(t.take(k - start) =~= piece@);
                    assert(t.skip(k - start + from@.len()) =~= s@.skip(k + from@.len()));
                    assert(out@ + replace(s@.skip(k + from@.len()), from@, to@) =~= old_out
                        + replace(t, from@, to@));
                }
                start = k + from.len();
            },
            None => {
                let piece = slice_of(s, start, s.len());
                let ghost old_out = out@;
                push_all(&mut out, &piece);
                proof {
                    assert(piece@ =~= t);
                }
                return out;
            },
        }
    }
}

pub fn replace_str(s: &Vec<char>, from: &str, to: &str) -> (r: Vec<char>)
    ensures
        r@ == replace(s@, from@, to@),
{
    let f = chars_of(from);
    let t = chars_of(to);
    replace_v(s, &f, &t)
}

proof fn lemma_word_len(s: Seq<char>, k: int)
    requires
        0 <= k <= s.len(),
        forall|j: int| 0 <= j < k ==> !is_ws(s[j]),
        k == s.len() || is_ws(s[k]),
    ensures
        word_len(s) == k,
    decreases s.len(),
{
    if s.len() > 0 && k > 0 {
        lemma_word_len(s.drop_first(), k - 1);
    }
}

/// `str::split_whitespace`.
pub fn words_v(s: &Vec<char>) -> (r: Vec<Vec<char>>)
    ensures
        views(r@) == words(s@),
{
    let mut out: Vec<Vec<char>> = Vec::new();
    let mut i: usize = 0;
    proof {
        assert(s@.skip(0) =~= s@);
    }
    loop
        invariant
            i <= s.len(),
            views(out@) + words(s@.skip(i as int)) == words(s@),
        decreases s.len() - i,
    {
        if i == s.len() {
            proof {
                assert(views(out@) + words(s@.skip(i as int)) =~= views(out@));
            }
            return out;
        }
        let ghost t = s@.skip(i as int);
        if ws(s[i]) {
            proof {
                assert(t.drop_first() =~= s@.skip(i + 1));
            }
            i = i + 1;
        } else {
            let mut k = i;
            while k < s.len() && !ws(s[k])
                invariant
                    i <= k <= s.len(),
                    forall|j: int| i <= j < k ==> !is_ws(s@[j]),
                decreases s.len() - k,
            {
                k = k + 1;
            }
            let piece = slice_of(s, i, k);
            proof {
                lemma_word_len(t, k - i);
                assert(t.take(k - i) =~= piece@);
                assert(t.skip(k - i) =~= s@.skip(k as int));
                lemma_views_push(out@, piece);
                assert(views(out@.push(piece)) + words(s@.skip(k as int)) =~= views(out@) + words(
                    t,
                ));
            }
            out.push(piece);
            i = k;
        }
    }
}

/// `"    ".repeat(n)`.
pub fn spaces_v(n: u64) -> (r: Vec<char>)
    ensures
        r@ == spaces(n as nat),
{
    let mut out: Vec<char> = Vec::new();
    let mut k: u64 = 0;
    while k < n
        invariant
            k <= n,
            out@ == spaces(k as nat),
        decreases n - k,
    {
        out.push(' ');
        out.push(' ');
        out.push(' ');
        out.push(' ');
        k = k + 1;
        assert(out@ =~= spaces(k as nat));
    }
    out
}

pub open spec fn digit_char(d: nat) -> char {
    (48 + d) as char
}

/// Decimal digits of a natural number (`Display` for unsigned integers).
pub open spec fn dec(n: nat) -> Seq<char>
    decreases n,
{
    if n < 10 {
        seq![digit_char(n)]
    } else {
        dec(n / 10) + seq![digit_char(n % 10)]
    }
}

/// `Display` for signed integers.
pub open spec fn int_dec(i: int) -> Seq<char> {
    if i < 0 {
        seq!['-'] + dec((-i) as nat)
    } else {
        dec(i as nat)
    }
}

pub fn push_dec(out: &mut Vec<char>, n: u64)
    ensures
        final(out)@ == old(out)@ + dec(n as nat),
    decreases n,
{
    if n >= 10 {
        push_dec(out, n / 10);
    }
    let d: u8 = (n % 10) as u8;
    out.push((d + 48) as char);
    assert(final(out)@ =~= old(out)@ + dec(n as nat));
}

pub fn push_int(out: &mut Vec<char>, i: i64)
    requires
        i > i64::MIN,
    ensures
        final(out)@ == old(out)@ + int_dec(i as int),
{
    if i < 0 {
        out.push('-');
        push_dec(out, (-i) as u64);
        assert(final(out)@ =~= old(out)@ + int_dec(i as int));
    } else {
        push_dec(out, i as u64);
    }
}

pub open spec fn all_digits(s: Seq<char>) -> bool {
    forall|i: int| 0 <= i < s.len() ==> is_digit(s[i])
}

/// Value of a string of decimal digits.
pub open spec fn digits_val(s: Seq<char>) -> nat
    decreases s.len(),
{
    if s.len() == 0 {
        0
    } else {
        digits_val(s.drop_last()) * 10 + ((s.last() as int - 48) as nat)
    }
}

/// What `str::parse::<iN>` accepts: an optional sign, then at least one decimal digit.
pub open spec fn signed_digits(s: Seq<char>) -> Option<int> {
    let neg = s.len() > 0 && s[0] == '-';
    let signed = s.len() > 0 && (s[0] == '-' || s[0] == '+');
    let body = if signed {
        s.drop_first()
    } else {
        s
    };
    if body.len() == 0 || !all_digits(body) {
        None
    } else if neg {
        Some(-(digits_val(body) as int))
    } else {
        Some(digits_val(body) as int)
    }
}

/// `str::parse::<i32>`.
pub open spec fn parse_i32(s: Seq<char>) -> Option<int> {
    match signed_digits(s) {
        Some(v) => if i32::MIN <= v <= i32::MAX {
            Some(v)
        } else {
            None
        },
        None => None,
    }
}

/// `str::parse::<u8>`: an optional `+`, then decimal digits worth at most 255.
pub open spec fn parse_u8(s: Seq<char>) -> Option<int> {
    let body = if s.len() > 0 && s[0] == '+' {
        s.drop_first()
    } else {
        s
    };
    if body.len() == 0 || !all_digits(body) || digits_val(body) > 255 {
        None
    } else {
        Some(digits_val(body) as int)
    }
}

proof fn lemma_digits_step(s: Seq<char>, i: int)
    requires
        0 <= i < s.len(),
    ensures
        digits_val(s.take(i + 1)) == digits_val(s.take(i)) * 10 + ((s[i] as int - 48) as nat),
{
    assert(s.take(i + 1).drop_last() =~= s.take(i));
}

/// Value of a digit string, capped at 2^40.
fn capped_digits(s: &Vec<char>, from: usize) -> (r: u64)
    requires
        from <= s.len(),
        all_digits(s@.skip(from as int)),
    ensures
        r == if digits_val(s@.skip(from as int)) < 0x100_0000_0000 {
            digits_val(s@.skip(from as int))
        } else {
            0x100_0000_0000
        },
{
    let ghost t = s@.skip(from as int);
    let mut v: u64 = 0;
    let mut i = from;
    proof {
        assert(t.take(0) =~= Seq::<char>::empty());
    }
    while i < s.len()
        invariant
            from <= i <= s.len(),
            t == s@.skip(from as int),
            all_digits(t),
            v == if digits_val(t.take(i - from)) < 0x100_0000_0000 {
                digits_val(t.take(i - from))
            } else {
                0x100_0000_0000
            },
        decreases s.len() - i,
    {
        let d = s[i];
        assert(t[i - from] == d);
        assert(is_digit(d));
        let dv: u64 = (d as u64) - 48;
        proof {
            lemma_digits_step(t, i - from);
        }
        if v >= 0x100_0000_0000 {
            v = 0x100_0000_0000;
        } else {
            v = v * 10 + dv;
            if v > 0x100_0000_0000 {
                v = 0x100_0000_0000;
            }
        }
        i = i + 1;
    }
    assert(t.take(s.len() - from) =~= t);
    v
}

fn digits_only(s: &Vec<char>, from: usize) -> (r: bool)
    requires
        from <= s.len(),
    ensures
        r == all_digits(s@.skip(from as int)),
{
    let mut i = from;
    while i < s.len()
        invariant
            from <= i <= s.len(),
            forall|j: int| from <= j < i ==> is_digit(s@[j]),
        decreases s.len() - i,
    {
        if !(s[i] >= '0' && s[i] <= '9') {
            assert(!is_digit(s@.skip(from as int)[i - from]));
            return false;
        }
        i = i + 1;
    }
    assert forall|j: int| 0 <= j < s@.skip(from as int).len() implies is_digit(
        s@.skip(from as int)[j],
    ) by {
        assert(s@.skip(from as int)[j] == s@[j + from]);
    }
    true
}

/// `str::parse::<i32>`.
pub fn parse_i32_v(s: &Vec<char>) -> (r: Option<i32>)
    ensures
        r matches Some(v) ==> parse_i32(s@) == Some(v as int),
        r is None ==> parse_i32(s@) is None,
{
    let signed = s.len() > 0 && (s[0] == '-' || s[0] == '+');
    let neg = s.len() > 0 && s[0] == '-';
    let from: usize = if signed {
        1
    } else {
        0
    };
    proof {
        assert(s@.skip(0) =~= s@);
        if signed {
            assert(s@.skip(1) =~= s@.drop_first());
        }
    }
    if from == s.len() || !digits_only(s, from) {
        return None;
    }
    let v = capped_digits(s, from);
    if neg {
        if v <= 0x8000_0000 {
            let r: i64 = -(v as i64);
            return Some(r as i32);
        }
        None
    } else {
        if v <= 0x7fff_ffff {
            return Some(v as i32);
        }
        None
    }
}

/// `str::parse::<u8>`.
pub fn parse_u8_v(s: &Vec<char>) -> (r: Option<u8>)
    ensures
        r matches Some(v) ==> parse_u8(s@) == Some(v as int),
        r is None ==> parse_u8(s@) is None,
{
    let from: usize = if s.len() > 0 && s[0] == '+' {
        1
    } else {
        0
    };
    proof {
        assert(s@.skip(0) =~= s@);
        if from == 1 {
            assert(s@.skip(1) =~= s@.drop_first());
        }
    }
    if from == s.len() || !digits_only(s, from) {
        return None;
    }
    let v = capped_digits(s, from);
    if v <= 255 {
        Some(v as u8)
    } else {
        None
    }
}

} // verus!
