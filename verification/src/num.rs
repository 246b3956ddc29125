//! Numbers.
//!
//! The transpiler reads CSS numbers as `f32` and prints them back with
//! `Display`.  This crate holds no floating point: every such step is a
//! request `(operation, literal)` answered by a [`NumTable`] that the caller
//! fills in.  What stays here is everything that decides which number is
//! asked for: the literal syntax that `str::parse::<f32>` accepts, the default
//! used when it does not, and where the answer goes.
use vstd::prelude::*;
use crate::text::{ascii_lower, chars_of, copy, is_digit, lower_ascii, same, slice_of, to_string};

verus! {

/// The floating-point steps the transpiler performs on a CSS number `x`
/// (the value of `str::parse::<f32>` on the literal).
#[derive(PartialEq, Eq, Structural, Clone, Copy, Debug)]
pub enum NumOp {
    /// `x` printed with `Display`.
    Show,
    /// `x / 100` printed with `Display`.
    Percent,
    /// `x as i32` printed.
    Truncate,
    /// `1 - x` printed with `Display`.
    Complement,
    /// `(x / 255).min(1).max(0)` printed with `Display`.
    Channel,
    /// `"true"` when `|x - 50| < 1`, else `"false"`.
    NearFifty,
}

/// One answered request.
pub struct NumEntry {
    pub op: NumOp,
    pub text: String,
    pub value: String,
}

/// The answers known so far; the first entry for a request counts.
pub struct NumTable {
    pub entries: Vec<NumEntry>,
}

/// A number the transpiler needs and the table does not hold.
#[derive(Debug)]
pub struct NumRequest {
    pub op: NumOp,
    pub text: String,
}

/// Why a transpilation stopped.
#[derive(Debug)]
pub enum Halt {
    /// The table lacks the answer to this request.
    Need(NumRequest),
    /// A three-byte color code holds a multi-byte character; slicing it by bytes
    /// would cut inside that character.
    CharBoundary,
    /// A 32-bit instance counter would pass its maximum.
    Overflow,
}

pub enum SHalt {
    Need(NumOp, Seq<char>),
    CharBoundary,
    Overflow,
}

pub type STable = Seq<(NumOp, Seq<char>, Seq<char>)>;

impl View for NumTable {
    type V = STable;

    open spec fn view(&self) -> STable {
        self.entries@.map_values(|e: NumEntry| (e.op, e.text@, e.value@))
    }
}

impl View for Halt {
    type V = SHalt;

    open spec fn view(&self) -> SHalt {
        match self {
            Halt::Need(r) => SHalt::Need(r.op, r.text@),
            Halt::CharBoundary => SHalt::CharBoundary,
            Halt::Overflow => SHalt::Overflow,
        }
    }
}

/// The view of a result whose error is a [`Halt`].
pub open spec fn resv<T: View>(r: Result<T, Halt>) -> Result<T::V, SHalt> {
    match r {
        Ok(v) => Ok(v@),
        Err(h) => Err(h@),
    }
}

/// The first answer the table holds for `(op, text)`.
pub open spec fn lookup(t: STable, op: NumOp, text: Seq<char>) -> Option<Seq<char>>
    decreases t.len(),
{
    if t.len() == 0 {
        None
    } else if t[0].0 == op && t[0].1 == text {
        Some(t[0].2)
    } else {
        lookup(t.drop_first(), op, text)
    }
}

/// The answer, or the request for it.
pub open spec fn num(t: STable, op: NumOp, text: Seq<char>) -> Result<Seq<char>, SHalt> {
    match lookup(t, op, text) {
        Some(v) => Ok(v),
        None => Err(SHalt::Need(op, text)),
    }
}

/// An error that asks for no number the table already answers.
pub open spec fn fresh(t: STable, h: SHalt) -> bool {
    match h {
        SHalt::Need(op, x) => lookup(t, op, x) is None,
        _ => true,
    }
}

/// A spec result that, if it stops, stops for a number the table lacks, or
/// for a reason that no answer can remove.
pub open spec fn asks_fresh<T>(t: STable, r: Result<T, SHalt>) -> bool {
    r matches Err(e) ==> fresh(t, e)
}

/// A spec result that did not stop at a cut inside a character.
pub open spec fn uncut<T>(r: Result<T, SHalt>) -> bool {
    r matches Err(e) ==> !(e is CharBoundary)
}

/// A result whose error, if any, asks for no number the table answers.
pub open spec fn fresh_err<T>(t: STable, r: Result<T, Halt>) -> bool {
    r matches Err(h) ==> fresh(t, h@)
}

/// A result that did not stop at a cut inside a character.
pub open spec fn no_boundary<T>(r: Result<T, Halt>) -> bool {
    r matches Err(h) ==> !(h@ is CharBoundary)
}

impl NumTable {
    pub fn new() -> (r: NumTable)
        ensures
            r@ == Seq::<(NumOp, Seq<char>, Seq<char>)>::empty(),
    {
        let r = NumTable { entries: Vec::new() };
        assert(r@ =~= Seq::<(NumOp, Seq<char>, Seq<char>)>::empty());
        r
    }

    /// Records an answer behind the ones already held.
    pub fn add(&mut self, op: NumOp, text: String, value: String)
        ensures
            final(self)@ == old(self)@.push((op, text@, value@)),
    {
        let e = NumEntry { op, text, value };
        self.entries.push(e);
        assert(final(self)@ =~= old(self)@.push((op, text@, value@)));
    }
}

/// The answer to `(op, text)`, or the request for it.
pub fn number(t: &NumTable, op: NumOp, text: &Vec<char>) -> (r: Result<Vec<char>, Halt>)
    ensures
        no_boundary(r),
        fresh_err(t@, r),
        resv(r) == num(t@, op, text@),
{
    let mut i: usize = 0;
    proof {
        assert(t@.skip(0) =~= t@);
    }
    while i < t.entries.len()
        invariant
            i <= t.entries.len(),
            lookup(t@, op, text@) == lookup(t@.skip(i as int), op, text@),
        decreases t.entries.len() - i,
    {
        let e = &t.entries[i];
        let et = chars_of(e.text.as_str());
        proof {
            assert(t@.skip(i as int)[0] == (e.op, e.text@, e.value@));
            assert(t@.skip(i as int).drop_first() =~= t@.skip(i + 1));
        }
        if e.op == op && same(&et, text) {
            return Ok(chars_of(e.value.as_str()));
        }
        i = i + 1;
    }
    Err(Halt::Need(NumRequest { op, text: to_string(text) }))
}

/// Index of the first non-digit at or after `i`.
pub open spec fn digits_end(s: Seq<char>, i: int) -> int
    decreases s.len() - i,
{
    if 0 <= i < s.len() && is_digit(s[i]) {
        digits_end(s, i + 1)
    } else {
        i
    }
}

pub open spec fn is_exponent(t: Seq<char>) -> bool {
    &&& t.len() >= 2
    &&& (t[0] == 'e' || t[0] == 'E')
    &&& ({
        let b: int = if t[1] == '+' || t[1] == '-' {
            2
        } else {
            1
        };
        b < t.len() && digits_end(t, b) == t.len()
    })
}

/// `Digit+ | Digit+ '.' Digit* | Digit* '.' Digit+`, then an optional exponent.
pub open spec fn is_number(r: Seq<char>) -> bool {
    let d1 = digits_end(r, 0);
    let dot = d1 < r.len() && r[d1] == '.';
    let e0 = if dot {
        digits_end(r, d1 + 1)
    } else {
        d1
    };
    let frac = if dot {
        e0 - d1 - 1
    } else {
        0
    };
    (d1 > 0 || frac > 0) && (e0 == r.len() || is_exponent(r.skip(e0)))
}

pub open spec fn lower_all(r: Seq<char>) -> Seq<char> {
    r.map_values(|c: char| ascii_lower(c))
}

pub open spec fn is_special(r: Seq<char>) -> bool {
    let l = lower_all(r);
    l == seq!['i', 'n', 'f'] || l == seq!['i', 'n', 'f', 'i', 'n', 'i', 't', 'y'] || l == seq![
        'n',
        'a',
        'n',
    ]
}

/// Whether `str::parse::<f32>` accepts the text: an optional sign, then
/// `inf`, `infinity`, `nan` (any ASCII case) or a decimal number.
pub open spec fn is_float_lit(s: Seq<char>) -> bool {
    let a: int = if s.len() > 0 && (s[0] == '+' || s[0] == '-') {
        1
    } else {
        0
    };
    is_special(s.skip(a)) || is_number(s.skip(a))
}

/// The literal when `parse::<f32>` accepts it, else the default's literal.
pub open spec fn lit_or(s: Seq<char>, d: Seq<char>) -> Seq<char> {
    if is_float_lit(s) {
        s
    } else {
        d
    }
}

fn digits_end_v(s: &Vec<char>, i: usize) -> (r: usize)
    requires
        i <= s.len(),
    ensures
        r as int == digits_end(s@, i as int),
        i <= r <= s.len(),
{
    let mut j = i;
    while j < s.len() && s[j] >= '0' && s[j] <= '9'
        invariant
            i <= j <= s.len(),
            digits_end(s@, i as int) == digits_end(s@, j as int),
        decreases s.len() - j,
    {
        j = j + 1;
    }
    j
}

proof fn lemma_digits_end_shift(s: Seq<char>, a: int, i: int)
    requires
        0 <= a <= s.len(),
        0 <= i <= s.len() - a,
    ensures
        digits_end(s.skip(a), i) == digits_end(s, i + a) - a,
    decreases s.len() - a - i,
{
    if i < s.len() - a {
        assert(s.skip(a)[i] == s[i + a]);
        lemma_digits_end_shift(s, a, i + 1);
    }
}

fn is_exponent_at(s: &Vec<char>, e: usize) -> (r: bool)
    requires
        e <= s.len(),
    ensures
        r == is_exponent(s@.skip(e as int)),
{
    let ghost t = s@.skip(e as int);
    if s.len() - e < 2 {
        return false;
    }
    if !(s[e] == 'e' || s[e] == 'E') {
        return false;
    }
    let b: usize = if s[e + 1] == '+' || s[e + 1] == '-' {
        2
    } else {
        1
    };
    if b >= s.len() - e {
        return false;
    }
    let d = digits_end_v(s, e + b);
    proof {
        lemma_digits_end_shift(s@, e as int, b as int);
    }
    d == s.len()
}

fn is_special_at(s: &Vec<char>, a: usize) -> (r: bool)
    requires
        a <= s.len(),
    ensures
        r == is_special(s@.skip(a as int)),
{
    let t = slice_of(s, a, s.len());
    let mut l: Vec<char> = Vec::new();
    let mut i: usize = 0;
    while i < t.len()
        invariant
            i <= t.len(),
            l@ == lower_all(t@.take(i as int)),
        decreases t.len() - i,
    {
        l.push(lower_ascii(t[i]));
        i = i + 1;
        assert(l@ =~= lower_all(t@.take(i as int)));
    }
    assert(t@.take(t.len() as int) =~= t@);
    assert(t@ =~= s@.skip(a as int));
    let inf: Vec<char> = vec!['i', 'n', 'f'];
    let infinity: Vec<char> = vec!['i', 'n', 'f', 'i', 'n', 'i', 't', 'y'];
    let nan: Vec<char> = vec!['n', 'a', 'n'];
    assert(inf@ =~= seq!['i', 'n', 'f']);
    assert(infinity@ =~= seq!['i', 'n', 'f', 'i', 'n', 'i', 't', 'y']);
    assert(nan@ =~= seq!['n', 'a', 'n']);
    same(&l, &inf) || same(&l, &infinity) || same(&l, &nan)
}

fn is_number_at(s: &Vec<char>, a: usize) -> (r: bool)
    requires
        a <= s.len(),
    ensures
        r == is_number(s@.skip(a as int)),
{
    let ghost t = s@.skip(a as int);
    let d1 = digits_end_v(s, a);
    proof {
        lemma_digits_end_shift(s@, a as int, 0);
    }
    let dot = d1 < s.len() && s[d1] == '.';
    let e0 = if dot {
        digits_end_v(s, d1 + 1)
    } else {
        d1
    };
    proof {
        if dot {
            assert(t[d1 - a] == s@[d1 as int]);
            lemma_digits_end_shift(s@, a as int, d1 + 1 - a);
        } else if d1 < s.len() {
            assert(t[d1 - a] == s@[d1 as int]);
        }
    }
    let frac: usize = if dot {
        e0 - d1 - 1
    } else {
        0
    };
    if !(d1 > a || frac > 0) {
        return false;
    }
    if e0 == s.len() {
        return true;
    }
    proof {
        assert(t.skip(e0 - a) =~= s@.skip(e0 as int));
    }
    is_exponent_at(s, e0)
}

/// Whether `str::parse::<f32>` accepts the text.
pub fn float_lit(s: &Vec<char>) -> (r: bool)
    ensures
        r == is_float_lit(s@),
{
    let a: usize = if s.len() > 0 && (s[0] == '+' || s[0] == '-') {
        1
    } else {
        0
    };
    is_special_at(s, a) || is_number_at(s, a)
}

pub fn lit_or_v(s: &Vec<char>, d: &str) -> (r: Vec<char>)
    ensures
        r@ == lit_or(s@, d@),
{
    if float_lit(s) {
        copy(s)
    } else {
        chars_of(d)
    }
}

/// `parse::<f32>` of the text, or of the default literal, taken through `op`.
pub open spec fn num_or(t: STable, op: NumOp, s: Seq<char>, d: Seq<char>) -> Result<
    Seq<char>,
    SHalt,
> {
    num(t, op, lit_or(s, d))
}

pub fn number_or(t: &NumTable, op: NumOp, s: &Vec<char>, d: &str) -> (r: Result<Vec<char>, Halt>)
    ensures
        no_boundary(r),
        fresh_err(t@, r),
        resv(r) == num_or(t@, op, s@, d@),
{
    let l = lit_or_v(s, d);
    number(t, op, &l)
}

/// The value of a hexadecimal digit.
pub open spec fn hex_val(c: char) -> Option<nat> {
    if '0' <= c && c <= '9' {
        Some((c as int - 48) as nat)
    } else if 'a' <= c && c <= 'f' {
        Some((c as int - 87) as nat)
    } else if 'A' <= c && c <= 'F' {
        Some((c as int - 55) as nat)
    } else {
        None
    }
}

pub fn hex_val_v(c: char) -> (r: Option<u8>)
    ensures
        r matches Some(v) ==> hex_val(c) == Some(v as nat),
        r is None ==> hex_val(c) is None,
{
    if '0' <= c && c <= '9' {
        Some((c as u8) - 48)
    } else if 'a' <= c && c <= 'f' {
        Some((c as u8) - 87)
    } else if 'A' <= c && c <= 'F' {
        Some((c as u8) - 55)
    } else {
        None
    }
}

pub open spec fn hex_digit(d: nat) -> char {
    if d < 10 {
        (48 + d) as char
    } else {
        (87 + d) as char
    }
}

/// `format!("{:02x}", b)`.
pub open spec fn hex2(b: nat) -> Seq<char> {
    seq![hex_digit(b / 16), hex_digit(b % 16)]
}

pub fn push_hex2(out: &mut Vec<char>, b: u8)
    ensures
        final(out)@ == old(out)@ + hex2(b as nat),
{
    let hi = b / 16;
    let lo = b % 16;
    let ch = if hi < 10 {
        (hi + 48) as char
    } else {
        (hi + 87) as char
    };
    let cl = if lo < 10 {
        (lo + 48) as char
    } else {
        (lo + 87) as char
    };
    out.push(ch);
    out.push(cl);
    assert(final(out)@ =~= old(out)@ + hex2(b as nat));
}

} // verus!
