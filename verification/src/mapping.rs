//! CSS properties mapped to Roblox Luau UI properties: colors, size units
//! (px, %, vw, vh), layout and text properties.
use vstd::prelude::*;
use crate::text::{
    chars_of, concat, contains, find, find_from, contains_str, ends_with, ends_with_str, eq_ic, eq_ic_str,
    is_digit, lower, push_all, push_str, replace, replace_str, same_str, slice_of,
    split_char, split_char_v, starts_with, starts_with_str, strip_prefixes, strip_prefixes_str,
    strip_suffixes, strip_suffixes_str, to_lowercase, trim_end, trim_start, to_string, to_uppercase_char, trim, trim_v,
    uppercase_char, views, words, words_v,
};
use crate::num::{asks_fresh, fresh_err, 
    is_float_lit, lit_or, num, num_or, number, number_or, resv, float_lit, Halt, NumOp,
    NumTable, SHalt, STable,
};
use crate::dom::{keys_unique, law_get_after_insert, lemma_pidx, phas, pidx, pinsert, PropMap, SProps};

verus! {

/// `pre + n + post` when the number `n` is known.
pub open spec fn wrapped(pre: Seq<char>, r: Result<Seq<char>, SHalt>, post: Seq<char>) -> Result<
    Seq<char>,
    SHalt,
> {
    match r {
        Ok(n) => Ok(pre + n + post),
        Err(e) => Err(e),
    }
}

/// `to_udim2_x`: a CSS width (`%`, `px`, `vw`) as a UDim2 X-axis expression.
pub open spec fn udim2_x(value: Seq<char>, t: STable) -> Result<Seq<char>, SHalt> {
    let v = trim(value);
    if ends_with(v, "%"@) {
        wrapped(
            "UDim2.fromScale("@,
            num_or(t, NumOp::Percent, strip_suffixes(v, "%"@), "0"@),
            ", 0)"@,
        )
    } else if ends_with(v, "px"@) {
        wrapped(
            "UDim2.fromOffset("@,
            num_or(t, NumOp::Show, strip_suffixes(v, "px"@), "0"@),
            ", 0)"@,
        )
    } else if ends_with(v, "vw"@) {
        wrapped(
            "UDim2.new("@,
            num_or(t, NumOp::Percent, strip_suffixes(v, "vw"@), "0"@),
            ", 0, 0, 0)"@,
        )
    } else {
        Ok("UDim2.fromScale(0, 0)"@)
    }
}

/// `to_udim2_y`: a CSS height (`%`, `px`, `vh`) as a UDim2 Y-axis expression.
pub open spec fn udim2_y(value: Seq<char>, t: STable) -> Result<Seq<char>, SHalt> {
    let v = trim(value);
    if ends_with(v, "%"@) {
        wrapped(
            "UDim2.fromScale(0, "@,
            num_or(t, NumOp::Percent, strip_suffixes(v, "%"@), "0"@),
            ")"@,
        )
    } else if ends_with(v, "px"@) {
        wrapped(
            "UDim2.fromOffset(0, "@,
            num_or(t, NumOp::Show, strip_suffixes(v, "px"@), "0"@),
            ")"@,
        )
    } else if ends_with(v, "vh"@) {
        wrapped(
            "UDim2.new(0, 0, "@,
            num_or(t, NumOp::Percent, strip_suffixes(v, "vh"@), "0"@),
            ", 0)"@,
        )
    } else {
        Ok("UDim2.fromScale(0, 0)"@)
    }
}

fn wrap_v(pre: &str, n: &Vec<char>, post: &str) -> (r: Vec<char>)
    ensures
        r@ == pre@ + n@ + post@,
{
    let mut o = chars_of(pre);
    push_all(&mut o, n);
    push_str(&mut o, post);
    o
}

fn to_udim2_x_v(value: &Vec<char>, t: &NumTable) -> (r: Result<Vec<char>, Halt>)
    ensures
        fresh_err(t@, r),
        resv(r) == udim2_x(value@, t@),
{
    let v = trim_v(value);
    if ends_with_str(&v, "%") {
        let n = number_or(t, NumOp::Percent, &strip_suffixes_str(&v, "%"), "0")?;
        Ok(wrap_v("UDim2.fromScale(", &n, ", 0)"))
    } else if ends_with_str(&v, "px") {
        let n = number_or(t, NumOp::Show, &strip_suffixes_str(&v, "px"), "0")?;
        Ok(wrap_v("UDim2.fromOffset(", &n, ", 0)"))
    } else if ends_with_str(&v, "vw") {
        let n = number_or(t, NumOp::Percent, &strip_suffixes_str(&v, "vw"), "0")?;
        Ok(wrap_v("UDim2.new(", &n, ", 0, 0, 0)"))
    } else {
        Ok(chars_of("UDim2.fromScale(0, 0)"))
    }
}

fn to_udim2_y_v(value: &Vec<char>, t: &NumTable) -> (r: Result<Vec<char>, Halt>)
    ensures
        fresh_err(t@, r),
        resv(r) == udim2_y(value@, t@),
{
    let v = trim_v(value);
    if ends_with_str(&v, "%") {
        let n = number_or(t, NumOp::Percent, &strip_suffixes_str(&v, "%"), "0")?;
        Ok(wrap_v("UDim2.fromScale(0, ", &n, ")"))
    } else if ends_with_str(&v, "px") {
        let n = number_or(t, NumOp::Show, &strip_suffixes_str(&v, "px"), "0")?;
        Ok(wrap_v("UDim2.fromOffset(0, ", &n, ")"))
    } else if ends_with_str(&v, "vh") {
        let n = number_or(t, NumOp::Percent, &strip_suffixes_str(&v, "vh"), "0")?;
        Ok(wrap_v("UDim2.new(0, 0, ", &n, ", 0)"))
    } else {
        Ok(chars_of("UDim2.fromScale(0, 0)"))
    }
}

/// Converts a CSS width value (px, %, vw) to a UDim2 X-axis expression.
pub fn to_udim2_x(value: &str, t: &NumTable) -> (r: Result<String, Halt>)
    ensures
        fresh_err(t@, r),
        resv(r) == udim2_x(value@, t@),
{
    let v = to_udim2_x_v(&chars_of(value), t)?;
    Ok(to_string(&v))
}

/// Converts a CSS height value (px, %, vh) to a UDim2 Y-axis expression.
pub fn to_udim2_y(value: &str, t: &NumTable) -> (r: Result<String, Halt>)
    ensures
        fresh_err(t@, r),
        resv(r) == udim2_y(value@, t@),
{
    let v = to_udim2_y_v(&chars_of(value), t)?;
    Ok(to_string(&v))
}

/// Bytes in the UTF-8 encoding of a character.
pub open spec fn utf8_char_len(c: char) -> nat {
    if (c as u32) < 0x80 {
        1
    } else if (c as u32) < 0x800 {
        2
    } else if (c as u32) < 0x10000 {
        3
    } else {
        4
    }
}

/// Bytes in the UTF-8 encoding of a string (`str::len`).
pub open spec fn utf8_len(s: Seq<char>) -> nat
    decreases s.len(),
{
    if s.len() == 0 {
        0
    } else {
        utf8_len(s.drop_last()) + utf8_char_len(s.last())
    }
}

pub open spec fn is_ascii(s: Seq<char>) -> bool {
    forall|i: int| 0 <= i < s.len() ==> (s[i] as u32) < 0x80
}

proof fn lemma_utf8_len_step(s: Seq<char>, i: int)
    requires
        0 <= i < s.len(),
    ensures
        utf8_len(s.take(i + 1)) == utf8_len(s.take(i)) + utf8_char_len(s[i]),
{
    assert(s.take(i + 1).drop_last() =~= s.take(i));
}

proof fn lemma_utf8_len_ge(s: Seq<char>)
    ensures
        utf8_len(s) >= s.len(),
    decreases s.len(),
{
    if s.len() > 0 {
        lemma_utf8_len_ge(s.drop_last());
    }
}

/// Whether the string is three bytes long in UTF-8.
pub(crate) fn three_bytes(s: &Vec<char>) -> (r: bool)
    ensures
        r == (utf8_len(s@) == 3),
{
    let mut total: usize = 0;
    let mut i: usize = 0;
    proof {
        assert(s@.take(0) =~= Seq::<char>::empty());
    }
    while i < s.len()
        invariant
            i <= s.len(),
            total == utf8_len(s@.take(i as int)),
            total <= 3,
        decreases s.len() - i,
    {
        let c = s[i];
        let n: usize = if (c as u32) < 0x80 {
            1
        } else if (c as u32) < 0x800 {
            2
        } else if (c as u32) < 0x10000 {
            3
        } else {
            4
        };
        proof {
            lemma_utf8_len_step(s@, i as int);
        }
        if total + n > 3 {
            proof {
                let k = i + 1;
                assert(s@.take(k as int) + s@.skip(k as int) =~= s@);
                lemma_utf8_len_append(s@.take(k as int), s@.skip(k as int));
            }
            return false;
        }
        total = total + n;
        i = i + 1;
    }
    assert(s@.take(s.len() as int) =~= s@);
    total == 3
}

pub proof fn lemma_utf8_ascii(s: Seq<char>)
    requires
        is_ascii(s),
    ensures
        utf8_len(s) == s.len(),
    decreases s.len(),
{
    if s.len() > 0 {
        lemma_utf8_ascii(s.drop_last());
    }
}

proof fn lemma_utf8_len_append(a: Seq<char>, b: Seq<char>)
    ensures
        utf8_len(a + b) >= utf8_len(a),
    decreases b.len(),
{
    if b.len() > 0 {
        assert((a + b).drop_last() =~= a + b.drop_last());
        lemma_utf8_len_append(a, b.drop_last());
    }
}

pub(crate) fn ascii_only(s: &Vec<char>) -> (r: bool)
    ensures
        r == is_ascii(s@),
{
    let mut i: usize = 0;
    while i < s.len()
        invariant
            i <= s.len(),
            forall|j: int| 0 <= j < i ==> (s@[j] as u32) < 0x80,
        decreases s.len() - i,
    {
        if (s[i] as u32) >= 0x80 {
            return false;
        }
        i = i + 1;
    }
    true
}

/// Characters of `s` that are digits, `,` or (when `dot`) `.`.
pub open spec fn keep_number_chars(s: Seq<char>, dot: bool) -> Seq<char>
    decreases s.len(),
{
    if s.len() == 0 {
        s
    } else {
        let c = s.last();
        let rest = keep_number_chars(s.drop_last(), dot);
        if is_digit(c) || c == ',' || (dot && c == '.') {
            rest.push(c)
        } else {
            rest
        }
    }
}

pub fn keep_number_chars_v(s: &Vec<char>, dot: bool) -> (r: Vec<char>)
    ensures
        r@ == keep_number_chars(s@, dot),
{
    let mut out: Vec<char> = Vec::new();
    let mut i: usize = 0;
    while i < s.len()
        invariant
            i <= s.len(),
            out@ == keep_number_chars(s@.take(i as int), dot),
        decreases s.len() - i,
    {
        let c = s[i];
        proof {
            assert(s@.take(i + 1).drop_last() =~= s@.take(i as int));
        }
        if (c >= '0' && c <= '9') || c == ',' || (dot && c == '.') {
            out.push(c);
        }
        i = i + 1;
    }
    assert(s@.take(s.len() as int) =~= s@);
    out
}

/// The trimmed pieces that `parse::<f32>` accepts, in order.
pub open spec fn float_pieces(ps: Seq<Seq<char>>) -> Seq<Seq<char>>
    decreases ps.len(),
{
    if ps.len() == 0 {
        ps
    } else {
        let rest = float_pieces(ps.drop_last());
        let p = trim(ps.last());
        if is_float_lit(p) {
            rest.push(p)
        } else {
            rest
        }
    }
}

pub fn float_pieces_v(ps: &Vec<Vec<char>>) -> (r: Vec<Vec<char>>)
    ensures
        views(r@) == float_pieces(views(ps@)),
{
    let mut out: Vec<Vec<char>> = Vec::new();
    let mut i: usize = 0;
    while i < ps.len()
        invariant
            i <= ps.len(),
            views(out@) == float_pieces(views(ps@).take(i as int)),
        decreases ps.len() - i,
    {
        let p = trim_v(&ps[i]);
        proof {
            assert(views(ps@).take(i + 1).drop_last() =~= views(ps@).take(i as int));
            assert(views(ps@).take(i + 1).last() == ps@[i as int]@);
        }
        if float_lit(&p) {
            let ghost before = out@;
            out.push(p);
            proof {
                assert(views(out@) =~= views(before).push(p@));
            }
        }
        i = i + 1;
    }
    assert(views(ps@).take(ps.len() as int) =~= views(ps@));
    out
}

/// Each non-empty piece with its first character upper-cased, joined.
pub open spec fn camel(ps: Seq<Seq<char>>) -> Seq<char>
    decreases ps.len(),
{
    if ps.len() == 0 {
        Seq::empty()
    } else {
        let p = ps.last();
        let rest = camel(ps.drop_last());
        if p.len() == 0 {
            rest
        } else {
            rest + uppercase_char(p[0]) + p.drop_first()
        }
    }
}

fn camel_v(ps: &Vec<Vec<char>>) -> (r: Vec<char>)
    ensures
        r@ == camel(views(ps@)),
{
    let mut out: Vec<char> = Vec::new();
    let mut i: usize = 0;
    while i < ps.len()
        invariant
            i <= ps.len(),
            out@ == camel(views(ps@).take(i as int)),
        decreases ps.len() - i,
    {
        let p = &ps[i];
        proof {
            assert(views(ps@).take(i + 1).drop_last() =~= views(ps@).take(i as int));
            assert(views(ps@).take(i + 1).last() == ps@[i as int]@);
        }
        if p.len() > 0 {
            let up = to_uppercase_char(p[0]);
            push_all(&mut out, &up);
            let rest = slice_of(p, 1, p.len());
            assert(rest@ =~= p@.drop_first());
            push_all(&mut out, &rest);
        }
        i = i + 1;
    }
    assert(views(ps@).take(ps.len() as int) =~= views(ps@));
    out
}

/// `color_to_luau`: a CSS color (`#hex`, `rgb()`, `var()`) as a Roblox
/// `Color3` expression; a three-byte hex code with a multi-byte character is
/// where slicing by bytes would fail.
pub open spec fn color(value: Seq<char>, t: STable) -> Result<Seq<char>, SHalt> {
    let v = trim(value);
    if starts_with(v, "#"@) {
        let hex = strip_prefixes(v, "#"@);
        if utf8_len(hex) == 3 {
            if !is_ascii(hex) {
                Err(SHalt::CharBoundary)
            } else {
                Ok(
                    "Color3.fromHex(\""@ + seq![hex[0], hex[0], hex[1], hex[1], hex[2], hex[2]]
                        + "\")"@,
                )
            }
        } else {
            Ok("Color3.fromHex(\""@ + hex + "\")"@)
        }
    } else if starts_with(v, "rgb"@) {
        let nums = float_pieces(split_char(keep_number_chars(v, true), ','));
        if nums.len() >= 3 {
            match num(t, NumOp::Channel, nums[0]) {
                Ok(r) => match num(t, NumOp::Channel, nums[1]) {
                    Ok(g) => match num(t, NumOp::Channel, nums[2]) {
                        Ok(b) => Ok(
                            "Color3.new("@ + r + ", "@ + g + ", "@ + b + ")"@,
                        ),
                        Err(e) => Err(e),
                    },
                    Err(e) => Err(e),
                },
                Err(e) => Err(e),
            }
        } else {
            Ok("Color3.new(0, 0, 0)"@)
        }
    } else if starts_with(v, "var("@) {
        let inner = trim(strip_prefixes(strip_suffixes(strip_prefixes(v, "var("@), ")"@), "--"@));
        Ok("Theme."@ + camel(split_char(inner, '-')))
    } else {
        Ok("Color3.new(0, 0, 0)"@)
    }
}

pub fn color_v(value: &Vec<char>, t: &NumTable) -> (r: Result<Vec<char>, Halt>)
    ensures
        fresh_err(t@, r),
        resv(r) == color(value@, t@),
{
    let v = trim_v(value);
    if starts_with_str(&v, "#") {
        let hex = strip_prefixes_str(&v, "#");
        if three_bytes(&hex) {
            if !ascii_only(&hex) {
                return Err(Halt::CharBoundary);
            }
            proof {
                lemma_utf8_ascii(hex@);
            }
            let mut o = chars_of("Color3.fromHex(\"");
            let ghost o0 = o@;
            o.push(hex[0]);
            o.push(hex[0]);
            o.push(hex[1]);
            o.push(hex[1]);
            o.push(hex[2]);
            o.push(hex[2]);
            let ghost o1 = o@;
            push_str(&mut o, "\")");
            assert(o1 =~= o0 + seq![hex@[0], hex@[0], hex@[1], hex@[1], hex@[2], hex@[2]]);
            Ok(o)
        } else {
            Ok(wrap_v("Color3.fromHex(\"", &hex, "\")"))
        }
    } else if starts_with_str(&v, "rgb") {
        let kept = keep_number_chars_v(&v, true);
        let pieces = split_char_v(&kept, ',');
        let nums = float_pieces_v(&pieces);
        if nums.len() >= 3 {
            proof {
                assert(views(nums@)[0] == nums@[0]@);
                assert(views(nums@)[1] == nums@[1]@);
                assert(views(nums@)[2] == nums@[2]@);
            }
            let r = number(t, NumOp::Channel, &nums[0])?;
            let g = number(t, NumOp::Channel, &nums[1])?;
            let b = number(t, NumOp::Channel, &nums[2])?;
            let mut o = chars_of("Color3.new(");
            push_all(&mut o, &r);
            push_str(&mut o, ", ");
            push_all(&mut o, &g);
            push_str(&mut o, ", ");
            push_all(&mut o, &b);
            push_str(&mut o, ")");
            Ok(o)
        } else {
            Ok(chars_of("Color3.new(0, 0, 0)"))
        }
    } else if starts_with_str(&v, "var(") {
        let a = strip_prefixes_str(&v, "var(");
        let b = strip_suffixes_str(&a, ")");
        let c = strip_prefixes_str(&b, "--");
        let inner = trim_v(&c);
        let pieces = split_char_v(&inner, '-');
        let key = camel_v(&pieces);
        let mut o = chars_of("Theme.");
        push_all(&mut o, &key);
        Ok(o)
    } else {
        Ok(chars_of("Color3.new(0, 0, 0)"))
    }
}

/// Converts a CSS color value (#hex, rgb(), var()) to a Roblox Color3 expression.
pub fn color_to_luau(value: &str, t: &NumTable) -> (r: Result<String, Halt>)
    ensures
        fresh_err(t@, r),
        resv(r) == color(value@, t@),
{
    let v = color_v(&chars_of(value), t)?;
    Ok(to_string(&v))
}

} // verus!

verus! {

pub type EntryR = Result<Option<(Seq<char>, Seq<char>)>, SHalt>;

pub type Entry = Result<Option<(Vec<char>, Vec<char>)>, Halt>;

pub open spec fn eview(r: Entry) -> EntryR {
    match r {
        Ok(Some(p)) => Ok(Some((p.0@, p.1@))),
        Ok(None) => Ok(None),
        Err(h) => Err(h@),
    }
}

pub open spec fn gview(r: Option<Entry>) -> Option<EntryR> {
    match r {
        Some(x) => Some(eview(x)),
        None => None,
    }
}

/// The property `k` set to the computed value.
pub open spec fn some_kv(k: Seq<char>, r: Result<Seq<char>, SHalt>) -> EntryR {
    match r {
        Ok(v) => Ok(Some((k, v))),
        Err(e) => Err(e),
    }
}

pub open spec fn kv(k: Seq<char>, v: Seq<char>) -> EntryR {
    Ok(Some((k, v)))
}

fn some_kv_v(k: &str, r: Result<Vec<char>, Halt>) -> (o: Entry)
    ensures
        o matches Err(h) ==> r matches Err(h2) && h@ == h2@,
        eview(o) == some_kv(k@, resv(r)),
{
    match r {
        Ok(v) => Ok(Some((chars_of(k), v))),
        Err(e) => Err(e),
    }
}

fn kv_v(k: &str, v: Vec<char>) -> (o: Entry)
    ensures
        eview(o) == kv(k@, v@),
{
    Ok(Some((chars_of(k), v)))
}

fn kv_s(k: &str, v: &str) -> (o: Entry)
    ensures
        eview(o) == kv(k@, v@),
{
    Ok(Some((chars_of(k), chars_of(v))))
}

/// The piece between the first and the second occurrence of `p`
/// (`s.split(p).nth(1).unwrap_or("")`).
pub open spec fn second_piece(s: Seq<char>, p: Seq<char>) -> Seq<char> {
    match find(s, p) {
        Some(i) => {
            let rest = s.skip(i + p.len());
            match find(rest, p) {
                Some(j) => rest.take(j),
                None => rest,
            }
        },
        None => Seq::empty(),
    }
}

fn second_piece_v(s: &Vec<char>, p: &str) -> (r: Vec<char>)
    requires
        p@.len() > 0,
    ensures
        r@ == second_piece(s@, p@),
{
    let pv = chars_of(p);
    proof {
        crate::text::lemma_find_from(s@, p@, 0);
    }
    match crate::text::find_v(s, &pv, 0) {
        Some(i) => {
            assert(find_from(s@, pv@, 0) == Some(i as int));
            assert(i + pv@.len() <= s@.len());
            let slen = s.len();
            let st = i + pv.len();
            let ghost rest = s@.skip(st as int);
            proof {
                crate::text::lemma_find_skip(s@, p@, st as int, 0);
                crate::text::lemma_find_from(s@, p@, st as int);
            }
            match crate::text::find_v(s, &pv, st) {
                Some(j) => {
                    let r = slice_of(s, st, j);
                    assert(r@ =~= rest.take(j - st));
                    r
                },
                None => {
                    let r = slice_of(s, st, s.len());
                    assert(r@ =~= rest);
                    r
                },
            }
        },
        None => Vec::new(),
    }
}

/// The trimmed pieces that start with `#` or `rgb`.
pub open spec fn color_words(ps: Seq<Seq<char>>) -> Seq<Seq<char>>
    decreases ps.len(),
{
    if ps.len() == 0 {
        ps
    } else {
        let rest = color_words(ps.drop_last());
        let p = trim(ps.last());
        if starts_with(p, "#"@) || starts_with(p, "rgb"@) {
            rest.push(p)
        } else {
            rest
        }
    }
}

fn color_words_v(ps: &Vec<Vec<char>>) -> (r: Vec<Vec<char>>)
    ensures
        views(r@) == color_words(views(ps@)),
{
    let mut out: Vec<Vec<char>> = Vec::new();
    let mut i: usize = 0;
    while i < ps.len()
        invariant
            i <= ps.len(),
            views(out@) == color_words(views(ps@).take(i as int)),
        decreases ps.len() - i,
    {
        let p = trim_v(&ps[i]);
        proof {
            assert(views(ps@).take(i + 1).drop_last() =~= views(ps@).take(i as int));
            assert(views(ps@).take(i + 1).last() == ps@[i as int]@);
        }
        if starts_with_str(&p, "#") || starts_with_str(&p, "rgb") {
            let ghost before = out@;
            out.push(p);
            proof {
                assert(views(out@) =~= views(before).push(p@));
            }
        }
        i = i + 1;
    }
    assert(views(ps@).take(ps.len() as int) =~= views(ps@));
    out
}

/// The `background` property: a gradient of two colors, or a color.
pub open spec fn background(v: Seq<char>, t: STable) -> EntryR {
    if contains(v, "linear-gradient"@) || contains(v, "gradient"@) {
        let s = replace(
            replace(second_piece(v, "gradient"@), "linear-gradient("@, ""@),
            ")"@,
            ""@,
        );
        let cs = color_words(split_char(s, ','));
        if cs.len() >= 2 {
            kv("Gradient"@, cs[0] + " "@ + cs[1])
        } else {
            some_kv("BackgroundColor3"@, color(v, t))
        }
    } else {
        some_kv("BackgroundColor3"@, color(v, t))
    }
}

fn background_v(v: &Vec<char>, t: &NumTable) -> (r: Entry)
    ensures
        fresh_err(t@, r),
        eview(r) == background(v@, t@),
{
    if contains_str(v, "linear-gradient") || contains_str(v, "gradient") {
        proof {
            reveal_strlit("gradient");
        }
        let a = second_piece_v(v, "gradient");
        let b = replace_str(&a, "linear-gradient(", "");
        let s = replace_str(&b, ")", "");
        let pieces = split_char_v(&s, ',');
        let cs = color_words_v(&pieces);
        if cs.len() >= 2 {
            proof {
                assert(views(cs@)[0] == cs@[0]@);
                assert(views(cs@)[1] == cs@[1]@);
            }
            let mut o = crate::text::copy(&cs[0]);
            push_str(&mut o, " ");
            push_all(&mut o, &cs[1]);
            kv_v("Gradient", o)
        } else {
            some_kv_v("BackgroundColor3", color_v(v, t))
        }
    } else {
        some_kv_v("BackgroundColor3", color_v(v, t))
    }
}

/// The `display` property.
pub open spec fn display(v: Seq<char>) -> Option<(Seq<char>, Seq<char>)> {
    let tv = trim(v);
    if eq_ic(tv, "none"@) {
        Some(("Visible"@, "false"@))
    } else if eq_ic(tv, "grid"@) {
        Some(("display"@, "grid"@))
    } else if eq_ic(tv, "table"@) {
        Some(("display"@, "table"@))
    } else if eq_ic(tv, "page"@) {
        Some(("display"@, "page"@))
    } else if contains(v, "flex"@) {
        Some(("display"@, v))
    } else {
        None
    }
}

fn display_v(v: &Vec<char>) -> (r: Entry)
    ensures
        eview(r) == Ok::<_, SHalt>(display(v@)),
{
    let tv = trim_v(v);
    if eq_ic_str(&tv, "none") {
        kv_s("Visible", "false")
    } else if eq_ic_str(&tv, "grid") {
        kv_s("display", "grid")
    } else if eq_ic_str(&tv, "table") {
        kv_s("display", "table")
    } else if eq_ic_str(&tv, "page") {
        kv_s("display", "page")
    } else if contains_str(v, "flex") {
        kv_v("display", crate::text::copy(v))
    } else {
        Ok(None)
    }
}

/// Whether some key equals `k` up to ASCII case.
pub open spec fn has_key_ic(m: SProps, k: Seq<char>) -> bool {
    exists|i: int| 0 <= i < m.len() && eq_ic(m[i].0, k)
}

fn has_key_ic_v(m: &PropMap, k: &str) -> (r: bool)
    ensures
        r == has_key_ic(m@, k@),
{
    let kv = chars_of(k);
    let mut i: usize = 0;
    while i < m.len()
        invariant
            i <= m@.len(),
            kv@ == k@,
            forall|j: int| 0 <= j < i ==> !eq_ic(m@[j].0, k@),
        decreases m@.len() - i,
    {
        let (ek, _ev) = m.entry(i);
        if crate::text::eq_ic_v(&ek, &kv) {
            return true;
        }
        i = i + 1;
    }
    false
}

/// Colors, background, display, size and position.
pub open spec fn entry_layout(kl: Seq<char>, v: Seq<char>, all: SProps, t: STable) -> Option<
    EntryR,
> {
    if kl == "background-color"@ {
        Some(some_kv("BackgroundColor3"@, color(v, t)))
    } else if kl == "background"@ {
        Some(background(v, t))
    } else if kl == "color"@ {
        Some(some_kv("TextColor3"@, color(v, t)))
    } else if kl == "display"@ {
        Some(Ok(display(v)))
    } else if kl == "width"@ {
        Some(some_kv("SizeX"@, udim2_x(v, t)))
    } else if kl == "height"@ {
        Some(some_kv("SizeY"@, udim2_y(v, t)))
    } else if kl == "min-height"@ {
        Some(
            if has_key_ic(all, "height"@) {
                Ok(None)
            } else {
                some_kv("SizeY"@, udim2_y(v, t))
            },
        )
    } else if kl == "position"@ {
        Some(kv("PositionType"@, v))
    } else if kl == "top"@ {
        Some(some_kv("PositionY"@, udim2_y(v, t)))
    } else if kl == "left"@ {
        Some(some_kv("PositionX"@, udim2_x(v, t)))
    } else if kl == "z-index"@ {
        Some(kv("ZIndex"@, v))
    } else {
        None
    }
}

fn entry_layout_v(kl: &Vec<char>, v: &Vec<char>, all: &PropMap, t: &NumTable) -> (r: Option<
    Entry,
>)
    ensures
        r matches Some(e) ==> fresh_err(t@, e),
        gview(r) == entry_layout(kl@, v@, all@, t@),
{
    if same_str(kl, "background-color") {
        Some(some_kv_v("BackgroundColor3", color_v(v, t)))
    } else if same_str(kl, "background") {
        Some(background_v(v, t))
    } else if same_str(kl, "color") {
        Some(some_kv_v("TextColor3", color_v(v, t)))
    } else if same_str(kl, "display") {
        Some(display_v(v))
    } else if same_str(kl, "width") {
        Some(some_kv_v("SizeX", to_udim2_x_v(v, t)))
    } else if same_str(kl, "height") {
        Some(some_kv_v("SizeY", to_udim2_y_v(v, t)))
    } else if same_str(kl, "min-height") {
        Some(
            if has_key_ic_v(all, "height") {
                Ok(None)
            } else {
                some_kv_v("SizeY", to_udim2_y_v(v, t))
            },
        )
    } else if same_str(kl, "position") {
        Some(kv_v("PositionType", crate::text::copy(v)))
    } else if same_str(kl, "top") {
        Some(some_kv_v("PositionY", to_udim2_y_v(v, t)))
    } else if same_str(kl, "left") {
        Some(some_kv_v("PositionX", to_udim2_x_v(v, t)))
    } else if same_str(kl, "z-index") {
        Some(kv_v("ZIndex", crate::text::copy(v)))
    } else {
        None
    }
}

} // verus!

verus! {

/// Properties passed through under a Roblox name.
pub open spec fn renamed(kl: Seq<char>) -> Option<Seq<char>> {
    if kl == "padding"@ {
        Some("Padding"@)
    } else if kl == "padding-left"@ {
        Some("PaddingLeft"@)
    } else if kl == "padding-right"@ {
        Some("PaddingRight"@)
    } else if kl == "padding-top"@ {
        Some("PaddingTop"@)
    } else if kl == "padding-bottom"@ {
        Some("PaddingBottom"@)
    } else if kl == "border-radius"@ {
        Some("CornerRadius"@)
    } else if kl == "flex-direction"@ {
        Some("FlexDirection"@)
    } else if kl == "flex-grow"@ {
        Some("FlexGrow"@)
    } else if kl == "justify-content"@ {
        Some("JustifyContent"@)
    } else if kl == "align-items"@ {
        Some("AlignItems"@)
    } else if kl == "transition"@ {
        Some("Transition"@)
    } else if kl == "animation"@ {
        Some("Animation"@)
    } else if kl == "layout-order"@ {
        Some("LayoutOrder"@)
    } else if kl == "canvas-size"@ {
        Some("CanvasSize"@)
    } else if kl == "aspect-ratio"@ {
        Some("AspectRatio"@)
    } else if kl == "grid-cell-width"@ {
        Some("GridCellWidth"@)
    } else if kl == "grid-cell-height"@ {
        Some("GridCellHeight"@)
    } else if kl == "grid-padding"@ {
        Some("GridPadding"@)
    } else if kl == "gradient"@ {
        Some("Gradient"@)
    } else if kl == "ui-stroke"@ || kl == "stroke"@ {
        Some("UIStroke"@)
    } else if kl == "ui-scale"@ || kl == "scale"@ {
        Some("UIScale"@)
    } else {
        None
    }
}

fn renamed_v(kl: &Vec<char>) -> (r: Option<Vec<char>>)
    ensures
        r matches Some(n) ==> renamed(kl@) == Some(n@),
        r is None ==> renamed(kl@) is None,
{
    if same_str(kl, "padding") {
        Some(chars_of("Padding"))
    } else if same_str(kl, "padding-left") {
        Some(chars_of("PaddingLeft"))
    } else if same_str(kl, "padding-right") {
        Some(chars_of("PaddingRight"))
    } else if same_str(kl, "padding-top") {
        Some(chars_of("PaddingTop"))
    } else if same_str(kl, "padding-bottom") {
        Some(chars_of("PaddingBottom"))
    } else if same_str(kl, "border-radius") {
        Some(chars_of("CornerRadius"))
    } else if same_str(kl, "flex-direction") {
        Some(chars_of("FlexDirection"))
    } else if same_str(kl, "flex-grow") {
        Some(chars_of("FlexGrow"))
    } else if same_str(kl, "justify-content") {
        Some(chars_of("JustifyContent"))
    } else if same_str(kl, "align-items") {
        Some(chars_of("AlignItems"))
    } else if same_str(kl, "transition") {
        Some(chars_of("Transition"))
    } else if same_str(kl, "animation") {
        Some(chars_of("Animation"))
    } else if same_str(kl, "layout-order") {
        Some(chars_of("LayoutOrder"))
    } else if same_str(kl, "canvas-size") {
        Some(chars_of("CanvasSize"))
    } else if same_str(kl, "aspect-ratio") {
        Some(chars_of("AspectRatio"))
    } else if same_str(kl, "grid-cell-width") {
        Some(chars_of("GridCellWidth"))
    } else if same_str(kl, "grid-cell-height") {
        Some(chars_of("GridCellHeight"))
    } else if same_str(kl, "grid-padding") {
        Some(chars_of("GridPadding"))
    } else if same_str(kl, "gradient") {
        Some(chars_of("Gradient"))
    } else if same_str(kl, "ui-stroke") || same_str(kl, "stroke") {
        Some(chars_of("UIStroke"))
    } else if same_str(kl, "ui-scale") || same_str(kl, "scale") {
        Some(chars_of("UIScale"))
    } else {
        None
    }
}

/// `"true"` under `k` when the trimmed value is `true` (any ASCII case).
pub open spec fn flag(k: Seq<char>, v: Seq<char>) -> EntryR {
    if eq_ic(trim(v), "true"@) {
        kv(k, "true"@)
    } else {
        Ok(None)
    }
}

fn flag_v(k: &str, v: &Vec<char>) -> (r: Entry)
    ensures
        eview(r) == flag(k@, v@),
{
    let tv = trim_v(v);
    if eq_ic_str(&tv, "true") {
        kv_s(k, "true")
    } else {
        Ok(None)
    }
}

/// The words of `v` with trailing `%` removed that `parse::<f32>` accepts.
pub open spec fn percent_words(ws: Seq<Seq<char>>) -> Seq<Seq<char>>
    decreases ws.len(),
{
    if ws.len() == 0 {
        ws
    } else {
        let rest = percent_words(ws.drop_last());
        let p = strip_suffixes(ws.last(), "%"@);
        if is_float_lit(p) {
            rest.push(p)
        } else {
            rest
        }
    }
}

fn percent_words_v(ws: &Vec<Vec<char>>) -> (r: Vec<Vec<char>>)
    ensures
        views(r@) == percent_words(views(ws@)),
{
    let mut out: Vec<Vec<char>> = Vec::new();
    let mut i: usize = 0;
    while i < ws.len()
        invariant
            i <= ws.len(),
            views(out@) == percent_words(views(ws@).take(i as int)),
        decreases ws.len() - i,
    {
        let p = strip_suffixes_str(&ws[i], "%");
        proof {
            assert(views(ws@).take(i + 1).drop_last() =~= views(ws@).take(i as int));
            assert(views(ws@).take(i + 1).last() == ws@[i as int]@);
        }
        if float_lit(&p) {
            let ghost before = out@;
            out.push(p);
            proof {
                assert(views(out@) =~= views(before).push(p@));
            }
        }
        i = i + 1;
    }
    assert(views(ws@).take(ws.len() as int) =~= views(ws@));
    out
}

/// The `i`-th piece, or the default literal.
pub open spec fn nth_or(ps: Seq<Seq<char>>, i: int, d: Seq<char>) -> Seq<char> {
    if 0 <= i < ps.len() {
        ps[i]
    } else {
        d
    }
}

pub(crate) fn nth_or_v(ps: &Vec<Vec<char>>, i: usize, d: &str) -> (r: Vec<char>)
    ensures
        r@ == nth_or(views(ps@), i as int, d@),
{
    if i < ps.len() {
        crate::text::copy(&ps[i])
    } else {
        chars_of(d)
    }
}

/// `transform-origin`: two percentages over 100, as an anchor point.
pub open spec fn anchor(v: Seq<char>, t: STable) -> EntryR {
    let parts = percent_words(words(v));
    match num(t, NumOp::Percent, nth_or(parts, 0, "0.5"@)) {
        Ok(x) => match num(t, NumOp::Percent, nth_or(parts, 1, "0.5"@)) {
            Ok(y) => kv("AnchorPoint"@, "Vector2.new("@ + x + ", "@ + y + ")"@),
            Err(e) => Err(e),
        },
        Err(e) => Err(e),
    }
}

fn anchor_v(v: &Vec<char>, t: &NumTable) -> (r: Entry)
    ensures
        fresh_err(t@, r),
        eview(r) == anchor(v@, t@),
{
    let ws = words_v(v);
    let parts = percent_words_v(&ws);
    let x = number(t, NumOp::Percent, &nth_or_v(&parts, 0, "0.5"))?;
    let y = number(t, NumOp::Percent, &nth_or_v(&parts, 1, "0.5"))?;
    let mut o = chars_of("Vector2.new(");
    push_all(&mut o, &x);
    push_str(&mut o, ", ");
    push_all(&mut o, &y);
    push_str(&mut o, ")");
    kv_v("AnchorPoint", o)
}

/// `automatic-size`.
pub open spec fn auto_size(v: Seq<char>) -> EntryR {
    let l = lower(v);
    if contains(l, "x"@) && contains(l, "y"@) {
        kv("AutomaticSize"@, "Enum.AutomaticSize.XY"@)
    } else if contains(l, "x"@) {
        kv("AutomaticSize"@, "Enum.AutomaticSize.X"@)
    } else if contains(l, "y"@) {
        kv("AutomaticSize"@, "Enum.AutomaticSize.Y"@)
    } else {
        Ok(None)
    }
}

fn auto_size_v(v: &Vec<char>) -> (r: Entry)
    ensures
        eview(r) == auto_size(v@),
{
    let l = to_lowercase(v);
    if contains_str(&l, "x") && contains_str(&l, "y") {
        kv_s("AutomaticSize", "Enum.AutomaticSize.XY")
    } else if contains_str(&l, "x") {
        kv_s("AutomaticSize", "Enum.AutomaticSize.X")
    } else if contains_str(&l, "y") {
        kv_s("AutomaticSize", "Enum.AutomaticSize.Y")
    } else {
        Ok(None)
    }
}

/// `text-align`.
pub open spec fn x_align(v: Seq<char>) -> Seq<char> {
    let a = lower(v);
    if contains(a, "center"@) {
        "Enum.TextXAlignment.Center"@
    } else if contains(a, "right"@) {
        "Enum.TextXAlignment.Right"@
    } else {
        "Enum.TextXAlignment.Left"@
    }
}

fn x_align_v(v: &Vec<char>) -> (r: Vec<char>)
    ensures
        r@ == x_align(v@),
{
    let a = to_lowercase(v);
    if contains_str(&a, "center") {
        chars_of("Enum.TextXAlignment.Center")
    } else if contains_str(&a, "right") {
        chars_of("Enum.TextXAlignment.Right")
    } else {
        chars_of("Enum.TextXAlignment.Left")
    }
}

/// `vertical-align`.
pub open spec fn y_align(v: Seq<char>) -> Seq<char> {
    let a = lower(v);
    if contains(a, "center"@) {
        "Enum.TextYAlignment.Center"@
    } else if contains(a, "bottom"@) {
        "Enum.TextYAlignment.Bottom"@
    } else {
        "Enum.TextYAlignment.Top"@
    }
}

fn y_align_v(v: &Vec<char>) -> (r: Vec<char>)
    ensures
        r@ == y_align(v@),
{
    let a = to_lowercase(v);
    if contains_str(&a, "center") {
        chars_of("Enum.TextYAlignment.Center")
    } else if contains_str(&a, "bottom") {
        chars_of("Enum.TextYAlignment.Bottom")
    } else {
        chars_of("Enum.TextYAlignment.Top")
    }
}

/// `object-fit`.
pub open spec fn scale_type(v: Seq<char>) -> Seq<char> {
    let l = lower(v);
    if contains(l, "fill"@) {
        "Enum.ScaleType.Stretch"@
    } else if contains(l, "contain"@) {
        "Enum.ScaleType.Fit"@
    } else if contains(l, "cover"@) {
        "Enum.ScaleType.Crop"@
    } else {
        "Enum.ScaleType.Stretch"@
    }
}

fn scale_type_v(v: &Vec<char>) -> (r: Vec<char>)
    ensures
        r@ == scale_type(v@),
{
    let l = to_lowercase(v);
    if contains_str(&l, "fill") {
        chars_of("Enum.ScaleType.Stretch")
    } else if contains_str(&l, "contain") {
        chars_of("Enum.ScaleType.Fit")
    } else if contains_str(&l, "cover") {
        chars_of("Enum.ScaleType.Crop")
    } else {
        chars_of("Enum.ScaleType.Stretch")
    }
}

/// The value of a `rotate(...deg)` expression.
pub open spec fn rotation_text(v: Seq<char>) -> Seq<char> {
    trim(replace(replace(replace(v, "deg"@, ""@), "rotate("@, ""@), ")"@, ""@))
}

/// Numeric, border, transform and text properties.
pub open spec fn entry_style(kl: Seq<char>, v: Seq<char>, t: STable) -> Option<EntryR> {
    if kl == "gap"@ || kl == "row-gap"@ {
        Some(
            some_kv("LayoutGap"@, num_or(t, NumOp::Truncate, strip_suffixes(v, "px"@), "0"@)),
        )
    } else if kl == "opacity"@ || kl == "background-transparency"@ {
        Some(some_kv("BackgroundTransparency"@, num_or(t, NumOp::Complement, trim(v), "1"@)))
    } else if kl == "border"@ || kl == "border-width"@ {
        Some(
            some_kv(
                "BorderSizePixel"@,
                num_or(t, NumOp::Truncate, strip_suffixes(v, "px"@), "0"@),
            ),
        )
    } else if kl == "border-color"@ {
        Some(some_kv("BorderColor3"@, color(v, t)))
    } else if kl == "overflow"@ {
        Some(
            if eq_ic(trim(v), "hidden"@) {
                kv("ClipsDescendants"@, "true"@)
            } else {
                Ok(None)
            },
        )
    } else if kl == "transform"@ || kl == "rotate"@ {
        Some(some_kv("Rotation"@, num_or(t, NumOp::Show, rotation_text(v), "0"@)))
    } else if kl == "transform-origin"@ || kl == "anchor-point"@ {
        Some(anchor(v, t))
    } else if kl == "automatic-size"@ {
        Some(auto_size(v))
    } else if kl == "draggable"@ {
        Some(flag("Draggable"@, v))
    } else if kl == "active"@ {
        Some(flag("Active"@, v))
    } else if kl == "selectable"@ {
        Some(flag("Selectable"@, v))
    } else if kl == "text-size"@ || kl == "font-size"@ {
        Some(
            some_kv("TextSize"@, num_or(t, NumOp::Truncate, strip_suffixes(v, "px"@), "14"@)),
        )
    } else if kl == "font"@ || kl == "font-family"@ {
        Some(kv("Font"@, "Enum.Font."@ + replace(trim(v), " "@, ""@)))
    } else if kl == "text-wrap"@ {
        Some(flag("TextWrapped"@, v))
    } else if kl == "text-x-align"@ || kl == "text-align"@ {
        Some(kv("TextXAlignment"@, x_align(v)))
    } else if kl == "text-y-align"@ || kl == "vertical-align"@ {
        Some(kv("TextYAlignment"@, y_align(v)))
    } else if kl == "image-color"@ {
        Some(some_kv("ImageColor3"@, color(v, t)))
    } else if kl == "image-transparency"@ {
        Some(some_kv("ImageTransparency"@, num_or(t, NumOp::Show, trim(v), "0"@)))
    } else if kl == "scale-type"@ || kl == "object-fit"@ {
        Some(kv("ScaleType"@, scale_type(v)))
    } else if kl == "scroll-bar-thickness"@ {
        Some(
            some_kv(
                "ScrollBarThickness"@,
                num_or(t, NumOp::Truncate, strip_suffixes(v, "px"@), "0"@),
            ),
        )
    } else {
        None
    }
}

fn entry_style_v(kl: &Vec<char>, v: &Vec<char>, t: &NumTable) -> (r: Option<Entry>)
    ensures
        r matches Some(e) ==> fresh_err(t@, e),
        gview(r) == entry_style(kl@, v@, t@),
{
    if same_str(kl, "gap") || same_str(kl, "row-gap") {
        let s = strip_suffixes_str(v, "px");
        Some(some_kv_v("LayoutGap", number_or(t, NumOp::Truncate, &s, "0")))
    } else if same_str(kl, "opacity") || same_str(kl, "background-transparency") {
        let s = trim_v(v);
        Some(some_kv_v("BackgroundTransparency", number_or(t, NumOp::Complement, &s, "1")))
    } else if same_str(kl, "border") || same_str(kl, "border-width") {
        let s = strip_suffixes_str(v, "px");
        Some(some_kv_v("BorderSizePixel", number_or(t, NumOp::Truncate, &s, "0")))
    } else if same_str(kl, "border-color") {
        Some(some_kv_v("BorderColor3", color_v(v, t)))
    } else if same_str(kl, "overflow") {
        let s = trim_v(v);
        Some(
            if eq_ic_str(&s, "hidden") {
                kv_s("ClipsDescendants", "true")
            } else {
                Ok(None)
            },
        )
    } else if same_str(kl, "transform") || same_str(kl, "rotate") {
        let a = replace_str(v, "deg", "");
        let b = replace_str(&a, "rotate(", "");
        let c = replace_str(&b, ")", "");
        let s = trim_v(&c);
        Some(some_kv_v("Rotation", number_or(t, NumOp::Show, &s, "0")))
    } else if same_str(kl, "transform-origin") || same_str(kl, "anchor-point") {
        Some(anchor_v(v, t))
    } else if same_str(kl, "automatic-size") {
        Some(auto_size_v(v))
    } else if same_str(kl, "draggable") {
        Some(flag_v("Draggable", v))
    } else if same_str(kl, "active") {
        Some(flag_v("Active", v))
    } else if same_str(kl, "selectable") {
        Some(flag_v("Selectable", v))
    } else if same_str(kl, "text-size") || same_str(kl, "font-size") {
        let s = strip_suffixes_str(v, "px");
        Some(some_kv_v("TextSize", number_or(t, NumOp::Truncate, &s, "14")))
    } else if same_str(kl, "font") || same_str(kl, "font-family") {
        let s = trim_v(v);
        let r = replace_str(&s, " ", "");
        let mut o = chars_of("Enum.Font.");
        push_all(&mut o, &r);
        Some(kv_v("Font", o))
    } else if same_str(kl, "text-wrap") {
        Some(flag_v("TextWrapped", v))
    } else if same_str(kl, "text-x-align") || same_str(kl, "text-align") {
        Some(kv_v("TextXAlignment", x_align_v(v)))
    } else if same_str(kl, "text-y-align") || same_str(kl, "vertical-align") {
        Some(kv_v("TextYAlignment", y_align_v(v)))
    } else if same_str(kl, "image-color") {
        Some(some_kv_v("ImageColor3", color_v(v, t)))
    } else if same_str(kl, "image-transparency") {
        let s = trim_v(v);
        Some(some_kv_v("ImageTransparency", number_or(t, NumOp::Show, &s, "0")))
    } else if same_str(kl, "scale-type") || same_str(kl, "object-fit") {
        Some(kv_v("ScaleType", scale_type_v(v)))
    } else if same_str(kl, "scroll-bar-thickness") {
        let s = strip_suffixes_str(v, "px");
        Some(some_kv_v("ScrollBarThickness", number_or(t, NumOp::Truncate, &s, "0")))
    } else {
        None
    }
}

/// The Roblox property that one CSS declaration `k: v` becomes, if any.
pub open spec fn map_entry(k: Seq<char>, v: Seq<char>, all: SProps, t: STable) -> EntryR {
    let kl = lower(k);
    match entry_layout(kl, v, all, t) {
        Some(r) => r,
        None => match renamed(kl) {
            Some(n) => kv(n, v),
            None => match entry_style(kl, v, t) {
                Some(r) => r,
                None => kv(k, v),
            },
        },
    }
}

fn map_entry_v(k: &Vec<char>, v: &Vec<char>, all: &PropMap, t: &NumTable) -> (r: Entry)
    ensures
        fresh_err(t@, r),
        eview(r) == map_entry(k@, v@, all@, t@),
{
    let kl = to_lowercase(k);
    match entry_layout_v(&kl, v, all, t) {
        Some(r) => r,
        None => match renamed_v(&kl) {
            Some(n) => Ok(Some((n, crate::text::copy(v)))),
            None => match entry_style_v(&kl, v, t) {
                Some(r) => r,
                None => Ok(Some((crate::text::copy(k), crate::text::copy(v)))),
            },
        },
    }
}

/// The declarations from position `i` on, mapped into `acc`.
pub open spec fn map_from(all: SProps, i: int, acc: SProps, t: STable) -> Result<SProps, SHalt>
    decreases all.len() - i,
{
    if i < 0 || i >= all.len() {
        Ok(acc)
    } else {
        match map_entry(all[i].0, all[i].1, all, t) {
            Ok(Some(p)) => map_from(all, i + 1, pinsert(acc, p.0, p.1), t),
            Ok(None) => map_from(all, i + 1, acc, t),
            Err(e) => Err(e),
        }
    }
}

/// `map_css_to_luau`: every declaration mapped to its Roblox property, in order;
/// a later declaration that maps to the same property overwrites the value.
pub open spec fn map_css(all: SProps, t: STable) -> Result<SProps, SHalt> {
    map_from(all, 0, Seq::empty(), t)
}

/// Maps a set of CSS properties to their Roblox Luau UI equivalents.
pub fn map_css_to_luau(properties: &PropMap, t: &NumTable) -> (r: Result<PropMap, Halt>)
    ensures
        fresh_err(t@, r),
        resv(r) == map_css(properties@, t@),
{
    let mut out = PropMap::new();
    let mut i: usize = 0;
    while i < properties.len()
        invariant
            i <= properties@.len(),
            map_css(properties@, t@) == map_from(properties@, i as int, out@, t@),
        decreases properties@.len() - i,
    {
        let (k, v) = properties.entry(i);
        match map_entry_v(&k, &v, properties, t) {
            Ok(Some(p)) => {
                out.insert_v(&p.0, &p.1);
            },
            Ok(None) => {},
            Err(e) => {
                return Err(e);
            },
        }
        i = i + 1;
    }
    Ok(out)
}


/// The lower-case CSS names that the mapping turns into a Roblox property (or
/// drops); any other declaration is copied as it stands.
pub open spec fn recognised(kl: Seq<char>) -> bool {
    ||| entry_layout(kl, Seq::empty(), Seq::empty(), Seq::empty()) is Some
    ||| renamed(kl) is Some
    ||| entry_style(kl, Seq::empty(), Seq::empty()) is Some
}

proof fn lemma_unknown_entry(k: Seq<char>, v: Seq<char>, all: SProps, t: STable)
    requires
        !recognised(lower(k)),
    ensures
        map_entry(k, v, all, t) == kv(k, v),
{
}

proof fn lemma_map_from_unknown(all: SProps, i: int, t: STable)
    requires
        0 <= i <= all.len(),
        keys_unique(all),
        forall|j: int| 0 <= j < all.len() ==> !recognised(lower(#[trigger] all[j].0)),
    ensures
        map_from(all, i, all.take(i), t) == Ok::<SProps, SHalt>(all),
    decreases all.len() - i,
{
    if i == all.len() {
        assert(all.take(i) =~= all);
    } else {
        let k = all[i].0;
        lemma_unknown_entry(k, all[i].1, all, t);
        lemma_pidx(all.take(i), k);
        assert(pidx(all.take(i), k) is None) by {
            if let Some(j) = pidx(all.take(i), k) {
                assert(all.take(i)[j] == all[j]);
            }
        }
        assert(pinsert(all.take(i), k, all[i].1) =~= all.take(i + 1));
        lemma_map_from_unknown(all, i + 1, t);
    }
}

/// A declaration whose lower-cased name the mapping does not know comes out
/// with its key (case kept) and value unchanged; a map in which no name is
/// known comes back as it was.
pub proof fn law_unknown_declarations_kept(all: SProps, t: STable)
    requires
        keys_unique(all),
    ensures
        forall|i: int|
            0 <= i < all.len() && !recognised(lower(all[i].0)) ==> #[trigger] map_entry(
                all[i].0,
                all[i].1,
                all,
                t,
            ) == kv(all[i].0, all[i].1),
        (forall|i: int| 0 <= i < all.len() ==> !recognised(lower(#[trigger] all[i].0)))
            ==> map_css(all, t) == Ok::<SProps, SHalt>(all),
{
    assert forall|i: int|
        0 <= i < all.len() && !recognised(lower(all[i].0)) implies #[trigger] map_entry(
        all[i].0,
        all[i].1,
        all,
        t,
    ) == kv(all[i].0, all[i].1) by {
        lemma_unknown_entry(all[i].0, all[i].1, all, t);
    }
    if forall|i: int| 0 <= i < all.len() ==> !recognised(lower(#[trigger] all[i].0)) {
        assert(all.take(0) =~= Seq::<(Seq<char>, Seq<char>)>::empty());
        lemma_map_from_unknown(all, 0, t);
    }
}

proof fn lemma_map_from_len(all: SProps, i: int, acc: SProps, t: STable)
    requires
        0 <= i <= all.len(),
    ensures
        map_from(all, i, acc, t) matches Ok(r) ==> r.len() <= acc.len() + all.len() - i,
    decreases all.len() - i,
{
    if i < all.len() {
        match map_entry(all[i].0, all[i].1, all, t) {
            Ok(Some(p)) => {
                lemma_pidx(acc, p.0);
                lemma_map_from_len(all, i + 1, pinsert(acc, p.0, p.1), t);
            },
            Ok(None) => {
                lemma_map_from_len(all, i + 1, acc, t);
            },
            Err(_) => {},
        }
    }
}

/// Each declaration gives at most one Roblox property: the mapped map has no
/// more entries than the declarations, and none when there are none.
pub proof fn law_mapping_never_grows(all: SProps, t: STable)
    ensures
        map_css(all, t) matches Ok(r) ==> r.len() <= all.len(),
        all.len() == 0 ==> map_css(all, t) == Ok::<SProps, SHalt>(Seq::empty()),
{
    lemma_map_from_len(all, 0, Seq::empty(), t);
}


proof fn lemma_ascii_trim_start(s: Seq<char>)
    requires
        is_ascii(s),
    ensures
        is_ascii(trim_start(s)),
    decreases s.len(),
{
    if s.len() > 0 && crate::text::is_ws(s[0]) {
        lemma_ascii_trim_start(s.drop_first());
    }
}

proof fn lemma_ascii_trim_end(s: Seq<char>)
    requires
        is_ascii(s),
    ensures
        is_ascii(trim_end(s)),
    decreases s.len(),
{
    if s.len() > 0 && crate::text::is_ws(s.last()) {
        lemma_ascii_trim_end(s.drop_last());
    }
}

proof fn lemma_ascii_strip_prefixes(s: Seq<char>, p: Seq<char>)
    requires
        is_ascii(s),
    ensures
        is_ascii(strip_prefixes(s, p)),
    decreases s.len(),
{
    if p.len() > 0 && starts_with(s, p) {
        lemma_ascii_strip_prefixes(s.skip(p.len() as int), p);
    }
}

proof fn lemma_starts_concat(a: Seq<char>, b: Seq<char>)
    ensures
        starts_with(a + b, a),
{
    assert((a + b).take(a.len() as int) =~= a);
}

/// Every color comes out as `Color3.fromHex("...")`, `Color3.new(...)` or a
/// `Theme.` reference; a form that is not `#hex`, `rgb(...)` or `var(...)`
/// (such as `red`) gives black; on ASCII input the only stop is a request for
/// a number.
pub proof fn law_color_forms(value: Seq<char>, t: STable)
    ensures
        color(value, t) matches Ok(s) ==> (starts_with(s, "Color3.fromHex(\""@) || starts_with(
            s,
            "Color3.new("@,
        ) || starts_with(s, "Theme."@)),
        !starts_with(trim(value), "#"@) && !starts_with(trim(value), "rgb"@) && !starts_with(
            trim(value),
            "var("@,
        ) ==> color(value, t) == Ok::<Seq<char>, SHalt>("Color3.new(0, 0, 0)"@),
        is_ascii(value) ==> !(color(value, t) matches Err(e) && e is CharBoundary),
{
    let v = trim(value);
    if starts_with(v, "#"@) {
        let hex = strip_prefixes(v, "#"@);
        let six = seq![hex[0], hex[0], hex[1], hex[1], hex[2], hex[2]];
        lemma_starts_concat("Color3.fromHex(\""@, six + "\")"@);
        assert("Color3.fromHex(\""@ + six + "\")"@ =~= "Color3.fromHex(\""@ + (six + "\")"@));
        lemma_starts_concat("Color3.fromHex(\""@, hex + "\")"@);
        assert("Color3.fromHex(\""@ + hex + "\")"@ =~= "Color3.fromHex(\""@ + (hex + "\")"@));
        if is_ascii(value) {
            lemma_ascii_trim_start(value);
            lemma_ascii_trim_end(trim_start(value));
            lemma_ascii_strip_prefixes(v, "#"@);
        }
    } else if starts_with(v, "rgb"@) {
        let nums = float_pieces(split_char(keep_number_chars(v, true), ','));
        if nums.len() >= 3 {
            if let (Ok(r), Ok(g), Ok(b)) = (
                num(t, NumOp::Channel, nums[0]),
                num(t, NumOp::Channel, nums[1]),
                num(t, NumOp::Channel, nums[2]),
            ) {
                let rest = r + ", "@ + g + ", "@ + b + ")"@;
                lemma_starts_concat("Color3.new("@, rest);
                assert("Color3.new("@ + r + ", "@ + g + ", "@ + b + ")"@ =~= "Color3.new("@ + rest);
            }
        } else {
            lemma_starts_concat("Color3.new("@, "0, 0, 0)"@);
            assert("Color3.new(0, 0, 0)"@ =~= "Color3.new("@ + "0, 0, 0)"@) by {
                reveal_strlit("Color3.new(0, 0, 0)");
                reveal_strlit("Color3.new(");
                reveal_strlit("0, 0, 0)");
            }
        }
    } else if starts_with(v, "var("@) {
        let inner = trim(strip_prefixes(strip_suffixes(strip_prefixes(v, "var("@), ")"@), "--"@));
        lemma_starts_concat("Theme."@, camel(split_char(inner, '-')));
    } else {
        lemma_starts_concat("Color3.new("@, "0, 0, 0)"@);
        assert("Color3.new(0, 0, 0)"@ =~= "Color3.new("@ + "0, 0, 0)"@) by {
            reveal_strlit("Color3.new(0, 0, 0)");
            reveal_strlit("Color3.new(");
            reveal_strlit("0, 0, 0)");
        }
    }
}


/// A Roblox property name: it begins with an ASCII capital letter.
pub open spec fn roblox_name(k: Seq<char>) -> bool {
    k.len() > 0 && 'A' <= k[0] && k[0] <= 'Z'
}

/// A key the mapping may write for the declaration named `k`.
pub open spec fn mapped_key(k2: Seq<char>, k: Seq<char>) -> bool {
    k2 == k || k2 == "display"@ || roblox_name(k2)
}

proof fn lemma_layout_keys(kl: Seq<char>, v: Seq<char>, all: SProps, t: STable)
    ensures
        entry_layout(kl, v, all, t) matches Some(Ok(Some(p))) ==> roblox_name(p.0) || p.0
            == "display"@,
{
    reveal_strlit("BackgroundColor3");
    reveal_strlit("Gradient");
    reveal_strlit("TextColor3");
    reveal_strlit("Visible");
    reveal_strlit("SizeX");
    reveal_strlit("SizeY");
    reveal_strlit("PositionType");
    reveal_strlit("PositionY");
    reveal_strlit("PositionX");
    reveal_strlit("ZIndex");
}

proof fn lemma_renamed_keys(kl: Seq<char>)
    ensures
        renamed(kl) matches Some(n) ==> roblox_name(n),
{
    reveal_strlit("Padding");
    reveal_strlit("PaddingLeft");
    reveal_strlit("PaddingRight");
    reveal_strlit("PaddingTop");
    reveal_strlit("PaddingBottom");
    reveal_strlit("CornerRadius");
    reveal_strlit("FlexDirection");
    reveal_strlit("FlexGrow");
    reveal_strlit("JustifyContent");
    reveal_strlit("AlignItems");
    reveal_strlit("Transition");
    reveal_strlit("Animation");
    reveal_strlit("LayoutOrder");
    reveal_strlit("CanvasSize");
    reveal_strlit("AspectRatio");
    reveal_strlit("GridCellWidth");
    reveal_strlit("GridCellHeight");
    reveal_strlit("GridPadding");
    reveal_strlit("Gradient");
    reveal_strlit("UIStroke");
    reveal_strlit("UIScale");
}

proof fn lemma_style_keys(kl: Seq<char>, v: Seq<char>, t: STable)
    ensures
        entry_style(kl, v, t) matches Some(Ok(Some(p))) ==> roblox_name(p.0),
{
    reveal_strlit("LayoutGap");
    reveal_strlit("BackgroundTransparency");
    reveal_strlit("BorderSizePixel");
    reveal_strlit("BorderColor3");
    reveal_strlit("ClipsDescendants");
    reveal_strlit("Rotation");
    reveal_strlit("AnchorPoint");
    reveal_strlit("AutomaticSize");
    reveal_strlit("Draggable");
    reveal_strlit("Active");
    reveal_strlit("Selectable");
    reveal_strlit("TextSize");
    reveal_strlit("Font");
    reveal_strlit("TextWrapped");
    reveal_strlit("TextXAlignment");
    reveal_strlit("TextYAlignment");
    reveal_strlit("ImageColor3");
    reveal_strlit("ImageTransparency");
    reveal_strlit("ScaleType");
    reveal_strlit("ScrollBarThickness");
}

proof fn lemma_entry_keys(k: Seq<char>, v: Seq<char>, all: SProps, t: STable)
    ensures
        map_entry(k, v, all, t) matches Ok(Some(p)) ==> mapped_key(p.0, k),
{
    let kl = lower(k);
    lemma_layout_keys(kl, v, all, t);
    lemma_renamed_keys(kl);
    lemma_style_keys(kl, v, t);
}

pub proof fn lemma_phas_at(m: SProps, i: int)
    requires
        0 <= i < m.len(),
    ensures
        phas(m, m[i].0),
{
    lemma_pidx(m, m[i].0);
}

proof fn lemma_map_from_keys(all: SProps, i: int, acc: SProps, t: STable)
    requires
        0 <= i <= all.len(),
    ensures
        map_from(all, i, acc, t) matches Ok(r) ==> forall|k2: Seq<char>|
            #[trigger] phas(r, k2) ==> phas(acc, k2) || phas(all, k2) || k2 == "display"@
                || roblox_name(k2),
    decreases all.len() - i,
{
    if i < all.len() {
        lemma_entry_keys(all[i].0, all[i].1, all, t);
        lemma_phas_at(all, i);
        match map_entry(all[i].0, all[i].1, all, t) {
            Ok(Some(p)) => {
                let a2 = pinsert(acc, p.0, p.1);
                lemma_map_from_keys(all, i + 1, a2, t);
                assert forall|k2: Seq<char>| #[trigger] phas(a2, k2) implies phas(acc, k2)
                    || k2 == p.0 by {
                    law_get_after_insert(acc, p.0, p.1, k2);
                }
            },
            Ok(None) => {
                lemma_map_from_keys(all, i + 1, acc, t);
            },
            Err(_) => {},
        }
    }
}

/// Every key the mapping writes is the key of a declaration, `display`, or a
/// Roblox property name (an ASCII capital first).
pub proof fn law_mapped_keys(all: SProps, t: STable)
    ensures
        map_css(all, t) matches Ok(r) ==> forall|k2: Seq<char>|
            #[trigger] phas(r, k2) ==> phas(all, k2) || k2 == "display"@ || roblox_name(k2),
{
    lemma_map_from_keys(all, 0, Seq::empty(), t);
}


pub proof fn lemma_color_fresh(v: Seq<char>, t: STable)
    ensures
        asks_fresh(t, color(v, t)),
{
}

proof fn lemma_layout_fresh(kl: Seq<char>, v: Seq<char>, all: SProps, t: STable)
    ensures
        entry_layout(kl, v, all, t) matches Some(r) ==> asks_fresh(t, r),
{
    lemma_color_fresh(v, t);
}

proof fn lemma_style_fresh(kl: Seq<char>, v: Seq<char>, t: STable)
    ensures
        entry_style(kl, v, t) matches Some(r) ==> asks_fresh(t, r),
{
    lemma_color_fresh(v, t);
}

proof fn lemma_entry_fresh(k: Seq<char>, v: Seq<char>, all: SProps, t: STable)
    ensures
        asks_fresh(t, map_entry(k, v, all, t)),
{
    lemma_layout_fresh(lower(k), v, all, t);
    lemma_style_fresh(lower(k), v, t);
}

proof fn lemma_map_from_fresh(all: SProps, i: int, acc: SProps, t: STable)
    ensures
        asks_fresh(t, map_from(all, i, acc, t)),
    decreases all.len() - i,
{
    if 0 <= i < all.len() {
        lemma_entry_fresh(all[i].0, all[i].1, all, t);
        match map_entry(all[i].0, all[i].1, all, t) {
            Ok(Some(p)) => lemma_map_from_fresh(all, i + 1, pinsert(acc, p.0, p.1), t),
            Ok(None) => lemma_map_from_fresh(all, i + 1, acc, t),
            Err(_) => {},
        }
    }
}

/// The mapping stops for a number only when the table lacks it.
pub proof fn lemma_map_css_fresh(all: SProps, t: STable)
    ensures
        asks_fresh(t, map_css(all, t)),
{
    lemma_map_from_fresh(all, 0, Seq::empty(), t);
}


/// Text alignment words in any case: `center` centres; otherwise `right`
/// aligns right (horizontally) and `bottom` aligns to the bottom
/// (vertically); anything else aligns left or to the top.
pub proof fn law_text_alignment_words(v: Seq<char>)
    ensures
        contains(lower(v), "center"@) ==> x_align(v) == "Enum.TextXAlignment.Center"@ && y_align(v)
            == "Enum.TextYAlignment.Center"@,
        !contains(lower(v), "center"@) && contains(lower(v), "right"@) ==> x_align(v)
            == "Enum.TextXAlignment.Right"@,
        !contains(lower(v), "center"@) && !contains(lower(v), "right"@) ==> x_align(v)
            == "Enum.TextXAlignment.Left"@,
        !contains(lower(v), "center"@) && contains(lower(v), "bottom"@) ==> y_align(v)
            == "Enum.TextYAlignment.Bottom"@,
        !contains(lower(v), "center"@) && !contains(lower(v), "bottom"@) ==> y_align(v)
            == "Enum.TextYAlignment.Top"@,
{
}

/// `text-align` and `text-x-align` (in any case) set `TextXAlignment`, and
/// `text-y-align` and `vertical-align` set `TextYAlignment`, from the
/// alignment word of the value (see `law_text_alignment_words`).
pub proof fn law_text_alignment_keys(k: Seq<char>, v: Seq<char>, all: SProps, t: STable)
    ensures
        lower(k) == "text-align"@ || lower(k) == "text-x-align"@ ==> map_entry(k, v, all, t) == kv(
            "TextXAlignment"@,
            x_align(v),
        ),
        lower(k) == "text-y-align"@ || lower(k) == "vertical-align"@ ==> map_entry(k, v, all, t)
            == kv("TextYAlignment"@, y_align(v)),
{
    lemma_css_names_apart();
    reveal_strlit("TextXAlignment");
    reveal_strlit("TextYAlignment");
}

/// The CSS property names the mapping knows are told apart by their length
/// or by one character.
proof fn lemma_css_names_apart()
    ensures
        "active"@.len() == 6,
        "align-items"@.len() == 11,
        "anchor-point"@.len() == 12,
        "animation"@.len() == 9,
        "aspect-ratio"@.len() == 12,
        "automatic-size"@.len() == 14,
        "background"@.len() == 10,
        "background-color"@.len() == 16,
        "background-transparency"@.len() == 23,
        "border"@.len() == 6,
        "border-color"@.len() == 12,
        "border-radius"@.len() == 13,
        "border-width"@.len() == 12,
        "canvas-size"@.len() == 11,
        "color"@.len() == 5,
        "display"@.len() == 7,
        "draggable"@.len() == 9,
        "flex-direction"@.len() == 14,
        "flex-grow"@.len() == 9,
        "font"@.len() == 4,
        "font-family"@.len() == 11,
        "font-size"@.len() == 9,
        "gap"@.len() == 3,
        "gradient"@.len() == 8,
        "grid-cell-height"@.len() == 16,
        "grid-cell-width"@.len() == 15,
        "grid-padding"@.len() == 12,
        "height"@.len() == 6,
        "image-color"@.len() == 11,
        "image-transparency"@.len() == 18,
        "justify-content"@.len() == 15,
        "layout-order"@.len() == 12,
        "left"@.len() == 4,
        "min-height"@.len() == 10,
        "object-fit"@.len() == 10,
        "opacity"@.len() == 7,
        "overflow"@.len() == 8,
        "padding"@.len() == 7,
        "padding-bottom"@.len() == 14,
        "padding-left"@.len() == 12,
        "padding-right"@.len() == 13,
        "padding-top"@.len() == 11,
        "position"@.len() == 8,
        "rotate"@.len() == 6,
        "row-gap"@.len() == 7,
        "scale"@.len() == 5,
        "scale-type"@.len() == 10,
        "scroll-bar-thickness"@.len() == 20,
        "selectable"@.len() == 10,
        "stroke"@.len() == 6,
        "text-align"@.len() == 10,
        "text-size"@.len() == 9,
        "text-wrap"@.len() == 9,
        "text-x-align"@.len() == 12,
        "text-y-align"@.len() == 12,
        "top"@.len() == 3,
        "transform"@.len() == 9,
        "transform-origin"@.len() == 16,
        "transition"@.len() == 10,
        "ui-scale"@.len() == 8,
        "ui-stroke"@.len() == 9,
        "vertical-align"@.len() == 14,
        "width"@.len() == 5,
        "z-index"@.len() == 7,
        "gap"@ != "top"@,
        "font"@ != "left"@,
        "color"@ != "scale"@,
        "color"@ != "width"@,
        "scale"@ != "width"@,
        "active"@ != "border"@,
        "active"@ != "height"@,
        "active"@ != "rotate"@,
        "active"@ != "stroke"@,
        "border"@ != "height"@,
        "border"@ != "rotate"@,
        "border"@ != "stroke"@,
        "height"@ != "rotate"@,
        "height"@ != "stroke"@,
        "rotate"@ != "stroke"@,
        "display"@ != "opacity"@,
        "display"@ != "padding"@,
        "display"@ != "row-gap"@,
        "display"@ != "z-index"@,
        "opacity"@ != "padding"@,
        "opacity"@ != "row-gap"@,
        "opacity"@ != "z-index"@,
        "padding"@ != "row-gap"@,
        "padding"@ != "z-index"@,
        "row-gap"@ != "z-index"@,
        "gradient"@ != "overflow"@,
        "gradient"@ != "position"@,
        "gradient"@ != "ui-scale"@,
        "overflow"@ != "position"@,
        "overflow"@ != "ui-scale"@,
        "position"@ != "ui-scale"@,
        "animation"@ != "draggable"@,
        "animation"@ != "flex-grow"@,
        "animation"@ != "font-size"@,
        "animation"@ != "text-size"@,
        "animation"@ != "text-wrap"@,
        "animation"@ != "transform"@,
        "animation"@ != "ui-stroke"@,
        "draggable"@ != "flex-grow"@,
        "draggable"@ != "font-size"@,
        "draggable"@ != "text-size"@,
        "draggable"@ != "text-wrap"@,
        "draggable"@ != "transform"@,
        "draggable"@ != "ui-stroke"@,
        "flex-grow"@ != "font-size"@,
        "flex-grow"@ != "text-size"@,
        "flex-grow"@ != "text-wrap"@,
        "flex-grow"@ != "transform"@,
        "flex-grow"@ != "ui-stroke"@,
        "font-size"@ != "text-size"@,
        "font-size"@ != "text-wrap"@,
        "font-size"@ != "transform"@,
        "font-size"@ != "ui-stroke"@,
        "text-size"@ != "text-wrap"@,
        "text-size"@ != "transform"@,
        "text-size"@ != "ui-stroke"@,
        "text-wrap"@ != "transform"@,
        "text-wrap"@ != "ui-stroke"@,
        "transform"@ != "ui-stroke"@,
        "background"@ != "min-height"@,
        "background"@ != "object-fit"@,
        "background"@ != "scale-type"@,
        "background"@ != "selectable"@,
        "background"@ != "text-align"@,
        "background"@ != "transition"@,
        "min-height"@ != "object-fit"@,
        "min-height"@ != "scale-type"@,
        "min-height"@ != "selectable"@,
        "min-height"@ != "text-align"@,
        "min-height"@ != "transition"@,
        "object-fit"@ != "scale-type"@,
        "object-fit"@ != "selectable"@,
        "object-fit"@ != "text-align"@,
        "object-fit"@ != "transition"@,
        "scale-type"@ != "selectable"@,
        "scale-type"@ != "text-align"@,
        "scale-type"@ != "transition"@,
        "selectable"@ != "text-align"@,
        "selectable"@ != "transition"@,
        "text-align"@ != "transition"@,
        "align-items"@ != "canvas-size"@,
        "align-items"@ != "font-family"@,
        "align-items"@ != "image-color"@,
        "align-items"@ != "padding-top"@,
        "canvas-size"@ != "font-family"@,
        "canvas-size"@ != "image-color"@,
        "canvas-size"@ != "padding-top"@,
        "font-family"@ != "image-color"@,
        "font-family"@ != "padding-top"@,
        "image-color"@ != "padding-top"@,
        "anchor-point"@ != "aspect-ratio"@,
        "anchor-point"@ != "border-color"@,
        "anchor-point"@ != "border-width"@,
        "anchor-point"@ != "grid-padding"@,
        "anchor-point"@ != "layout-order"@,
        "anchor-point"@ != "padding-left"@,
        "anchor-point"@ != "text-x-align"@,
        "anchor-point"@ != "text-y-align"@,
        "aspect-ratio"@ != "border-color"@,
        "aspect-ratio"@ != "border-width"@,
        "aspect-ratio"@ != "grid-padding"@,
        "aspect-ratio"@ != "layout-order"@,
        "aspect-ratio"@ != "padding-left"@,
        "aspect-ratio"@ != "text-x-align"@,
        "aspect-ratio"@ != "text-y-align"@,
        "border-color"@ != "border-width"@,
        "border-color"@ != "grid-padding"@,
        "border-color"@ != "layout-order"@,
        "border-color"@ != "padding-left"@,
        "border-color"@ != "text-x-align"@,
        "border-color"@ != "text-y-align"@,
        "border-width"@ != "grid-padding"@,
        "border-width"@ != "layout-order"@,
        "border-width"@ != "padding-left"@,
        "border-width"@ != "text-x-align"@,
        "border-width"@ != "text-y-align"@,
        "grid-padding"@ != "layout-order"@,
        "grid-padding"@ != "padding-left"@,
        "grid-padding"@ != "text-x-align"@,
        "grid-padding"@ != "text-y-align"@,
        "layout-order"@ != "padding-left"@,
        "layout-order"@ != "text-x-align"@,
        "layout-order"@ != "text-y-align"@,
        "padding-left"@ != "text-x-align"@,
        "padding-left"@ != "text-y-align"@,
        "text-x-align"@ != "text-y-align"@,
        "border-radius"@ != "padding-right"@,
        "automatic-size"@ != "flex-direction"@,
        "automatic-size"@ != "padding-bottom"@,
        "automatic-size"@ != "vertical-align"@,
        "flex-direction"@ != "padding-bottom"@,
        "flex-direction"@ != "vertical-align"@,
        "padding-bottom"@ != "vertical-align"@,
        "grid-cell-width"@ != "justify-content"@,
        "background-color"@ != "grid-cell-height"@,
        "background-color"@ != "transform-origin"@,
        "grid-cell-height"@ != "transform-origin"@,
{
    reveal_strlit("active");
    reveal_strlit("align-items");
    reveal_strlit("anchor-point");
    reveal_strlit("animation");
    reveal_strlit("aspect-ratio");
    reveal_strlit("automatic-size");
    reveal_strlit("background");
    reveal_strlit("background-color");
    reveal_strlit("background-transparency");
    reveal_strlit("border");
    reveal_strlit("border-color");
    reveal_strlit("border-radius");
    reveal_strlit("border-width");
    reveal_strlit("canvas-size");
    reveal_strlit("color");
    reveal_strlit("display");
    reveal_strlit("draggable");
    reveal_strlit("flex-direction");
    reveal_strlit("flex-grow");
    reveal_strlit("font");
    reveal_strlit("font-family");
    reveal_strlit("font-size");
    reveal_strlit("gap");
    reveal_strlit("gradient");
    reveal_strlit("grid-cell-height");
    reveal_strlit("grid-cell-width");
    reveal_strlit("grid-padding");
    reveal_strlit("height");
    reveal_strlit("image-color");
    reveal_strlit("image-transparency");
    reveal_strlit("justify-content");
    reveal_strlit("layout-order");
    reveal_strlit("left");
    reveal_strlit("min-height");
    reveal_strlit("object-fit");
    reveal_strlit("opacity");
    reveal_strlit("overflow");
    reveal_strlit("padding");
    reveal_strlit("padding-bottom");
    reveal_strlit("padding-left");
    reveal_strlit("padding-right");
    reveal_strlit("padding-top");
    reveal_strlit("position");
    reveal_strlit("rotate");
    reveal_strlit("row-gap");
    reveal_strlit("scale");
    reveal_strlit("scale-type");
    reveal_strlit("scroll-bar-thickness");
    reveal_strlit("selectable");
    reveal_strlit("stroke");
    reveal_strlit("text-align");
    reveal_strlit("text-size");
    reveal_strlit("text-wrap");
    reveal_strlit("text-x-align");
    reveal_strlit("text-y-align");
    reveal_strlit("top");
    reveal_strlit("transform");
    reveal_strlit("transform-origin");
    reveal_strlit("transition");
    reveal_strlit("ui-scale");
    reveal_strlit("ui-stroke");
    reveal_strlit("vertical-align");
    reveal_strlit("width");
    reveal_strlit("z-index");
    assert("gap"@[0] != "top"@[0]);
    assert("font"@[0] != "left"@[0]);
    assert("color"@[0] != "scale"@[0]);
    assert("color"@[0] != "width"@[0]);
    assert("scale"@[0] != "width"@[0]);
    assert("active"@[0] != "border"@[0]);
    assert("active"@[0] != "height"@[0]);
    assert("active"@[0] != "rotate"@[0]);
    assert("active"@[0] != "stroke"@[0]);
    assert("border"@[0] != "height"@[0]);
    assert("border"@[0] != "rotate"@[0]);
    assert("border"@[0] != "stroke"@[0]);
    assert("height"@[0] != "rotate"@[0]);
    assert("height"@[0] != "stroke"@[0]);
    assert("rotate"@[0] != "stroke"@[0]);
    assert("display"@[0] != "opacity"@[0]);
    assert("display"@[0] != "padding"@[0]);
    assert("display"@[0] != "row-gap"@[0]);
    assert("display"@[0] != "z-index"@[0]);
    assert("opacity"@[0] != "padding"@[0]);
    assert("opacity"@[0] != "row-gap"@[0]);
    assert("opacity"@[0] != "z-index"@[0]);
    assert("padding"@[0] != "row-gap"@[0]);
    assert("padding"@[0] != "z-index"@[0]);
    assert("row-gap"@[0] != "z-index"@[0]);
    assert("gradient"@[0] != "overflow"@[0]);
    assert("gradient"@[0] != "position"@[0]);
    assert("gradient"@[0] != "ui-scale"@[0]);
    assert("overflow"@[0] != "position"@[0]);
    assert("overflow"@[0] != "ui-scale"@[0]);
    assert("position"@[0] != "ui-scale"@[0]);
    assert("animation"@[0] != "draggable"@[0]);
    assert("animation"@[0] != "flex-grow"@[0]);
    assert("animation"@[0] != "font-size"@[0]);
    assert("animation"@[0] != "text-size"@[0]);
    assert("animation"@[0] != "text-wrap"@[0]);
    assert("animation"@[0] != "transform"@[0]);
    assert("animation"@[0] != "ui-stroke"@[0]);
    assert("draggable"@[0] != "flex-grow"@[0]);
    assert("draggable"@[0] != "font-size"@[0]);
    assert("draggable"@[0] != "text-size"@[0]);
    assert("draggable"@[0] != "text-wrap"@[0]);
    assert("draggable"@[0] != "transform"@[0]);
    assert("draggable"@[0] != "ui-stroke"@[0]);
    assert("flex-grow"@[1] != "font-size"@[1]);
    assert("flex-grow"@[0] != "text-size"@[0]);
    assert("flex-grow"@[0] != "text-wrap"@[0]);
    assert("flex-grow"@[0] != "transform"@[0]);
    assert("flex-grow"@[0] != "ui-stroke"@[0]);
    assert("font-size"@[0] != "text-size"@[0]);
    assert("font-size"@[0] != "text-wrap"@[0]);
    assert("font-size"@[0] != "transform"@[0]);
    assert("font-size"@[0] != "ui-stroke"@[0]);
    assert("text-size"@[5] != "text-wrap"@[5]);
    assert("text-size"@[1] != "transform"@[1]);
    assert("text-size"@[0] != "ui-stroke"@[0]);
    assert("text-wrap"@[1] != "transform"@[1]);
    assert("text-wrap"@[0] != "ui-stroke"@[0]);
    assert("transform"@[0] != "ui-stroke"@[0]);
    assert("background"@[0] != "min-height"@[0]);
    assert("background"@[0] != "object-fit"@[0]);
    assert("background"@[0] != "scale-type"@[0]);
    assert("background"@[0] != "selectable"@[0]);
    assert("background"@[0] != "text-align"@[0]);
    assert("background"@[0] != "transition"@[0]);
    assert("min-height"@[0] != "object-fit"@[0]);
    assert("min-height"@[0] != "scale-type"@[0]);
    assert("min-height"@[0] != "selectable"@[0]);
    assert("min-height"@[0] != "text-align"@[0]);
    assert("min-height"@[0] != "transition"@[0]);
    assert("object-fit"@[0] != "scale-type"@[0]);
    assert("object-fit"@[0] != "selectable"@[0]);
    assert("object-fit"@[0] != "text-align"@[0]);
    assert("object-fit"@[0] != "transition"@[0]);
    assert("scale-type"@[1] != "selectable"@[1]);
    assert("scale-type"@[0] != "text-align"@[0]);
    assert("scale-type"@[0] != "transition"@[0]);
    assert("selectable"@[0] != "text-align"@[0]);
    assert("selectable"@[0] != "transition"@[0]);
    assert("text-align"@[1] != "transition"@[1]);
    assert("align-items"@[0] != "canvas-size"@[0]);
    assert("align-items"@[0] != "font-family"@[0]);
    assert("align-items"@[0] != "image-color"@[0]);
    assert("align-items"@[0] != "padding-top"@[0]);
    assert("canvas-size"@[0] != "font-family"@[0]);
    assert("canvas-size"@[0] != "image-color"@[0]);
    assert("canvas-size"@[0] != "padding-top"@[0]);
    assert("font-family"@[0] != "image-color"@[0]);
    assert("font-family"@[0] != "padding-top"@[0]);
    assert("image-color"@[0] != "padding-top"@[0]);
    assert("anchor-point"@[1] != "aspect-ratio"@[1]);
    assert("anchor-point"@[0] != "border-color"@[0]);
    assert("anchor-point"@[0] != "border-width"@[0]);
    assert("anchor-point"@[0] != "grid-padding"@[0]);
    assert("anchor-point"@[0] != "layout-order"@[0]);
    assert("anchor-point"@[0] != "padding-left"@[0]);
    assert("anchor-point"@[0] != "text-x-align"@[0]);
    assert("anchor-point"@[0] != "text-y-align"@[0]);
    assert("aspect-ratio"@[0] != "border-color"@[0]);
    assert("aspect-ratio"@[0] != "border-width"@[0]);
    assert("aspect-ratio"@[0] != "grid-padding"@[0]);
    assert("aspect-ratio"@[0] != "layout-order"@[0]);
    assert("aspect-ratio"@[0] != "padding-left"@[0]);
    assert("aspect-ratio"@[0] != "text-x-align"@[0]);
    assert("aspect-ratio"@[0] != "text-y-align"@[0]);
    assert("border-color"@[7] != "border-width"@[7]);
    assert("border-color"@[0] != "grid-padding"@[0]);
    assert("border-color"@[0] != "layout-order"@[0]);
    assert("border-color"@[0] != "padding-left"@[0]);
    assert("border-color"@[0] != "text-x-align"@[0]);
    assert("border-color"@[0] != "text-y-align"@[0]);
    assert("border-width"@[0] != "grid-padding"@[0]);
    assert("border-width"@[0] != "layout-order"@[0]);
    assert("border-width"@[0] != "padding-left"@[0]);
    assert("border-width"@[0] != "text-x-align"@[0]);
    assert("border-width"@[0] != "text-y-align"@[0]);
    assert("grid-padding"@[0] != "layout-order"@[0]);
    assert("grid-padding"@[0] != "padding-left"@[0]);
    assert("grid-padding"@[0] != "text-x-align"@[0]);
    assert("grid-padding"@[0] != "text-y-align"@[0]);
    assert("layout-order"@[0] != "padding-left"@[0]);
    assert("layout-order"@[0] != "text-x-align"@[0]);
    assert("layout-order"@[0] != "text-y-align"@[0]);
    assert("padding-left"@[0] != "text-x-align"@[0]);
    assert("padding-left"@[0] != "text-y-align"@[0]);
    assert("text-x-align"@[5] != "text-y-align"@[5]);
    assert("border-radius"@[0] != "padding-right"@[0]);
    assert("automatic-size"@[0] != "flex-direction"@[0]);
    assert("automatic-size"@[0] != "padding-bottom"@[0]);
    assert("automatic-size"@[0] != "vertical-align"@[0]);
    assert("flex-direction"@[0] != "padding-bottom"@[0]);
    assert("flex-direction"@[0] != "vertical-align"@[0]);
    assert("padding-bottom"@[0] != "vertical-align"@[0]);
    assert("grid-cell-width"@[0] != "justify-content"@[0]);
    assert("background-color"@[0] != "grid-cell-height"@[0]);
    assert("background-color"@[0] != "transform-origin"@[0]);
    assert("grid-cell-height"@[0] != "transform-origin"@[0]);
}

/// The Roblox property each layout-and-color CSS property (its name in any
/// case) becomes: `background-color` sets `BackgroundColor3`, `color` sets
/// `TextColor3`, `width` and `height` set `SizeX` and `SizeY`, `top` and
/// `left` set `PositionY` and `PositionX`, and so on.
pub proof fn law_css_layout_names(k: Seq<char>, v: Seq<char>, all: SProps, t: STable)
    ensures
        lower(k) == "background"@ ==> (map_entry(k, v, all, t) matches Ok(Some(p)) ==> p.0 == "Gradient"@ || p.0 == "BackgroundColor3"@),
        lower(k) == "background-color"@ ==> (map_entry(k, v, all, t) matches Ok(Some(p)) ==> p.0 == "BackgroundColor3"@),
        lower(k) == "color"@ ==> (map_entry(k, v, all, t) matches Ok(Some(p)) ==> p.0 == "TextColor3"@),
        lower(k) == "display"@ ==> (map_entry(k, v, all, t) matches Ok(Some(p)) ==> p.0 == "Visible"@ || p.0 == "display"@),
        lower(k) == "height"@ ==> (map_entry(k, v, all, t) matches Ok(Some(p)) ==> p.0 == "SizeY"@),
        lower(k) == "left"@ ==> (map_entry(k, v, all, t) matches Ok(Some(p)) ==> p.0 == "PositionX"@),
        lower(k) == "min-height"@ ==> (map_entry(k, v, all, t) matches Ok(Some(p)) ==> p.0 == "SizeY"@),
        lower(k) == "position"@ ==> (map_entry(k, v, all, t) matches Ok(Some(p)) ==> p.0 == "PositionType"@),
        lower(k) == "top"@ ==> (map_entry(k, v, all, t) matches Ok(Some(p)) ==> p.0 == "PositionY"@),
        lower(k) == "width"@ ==> (map_entry(k, v, all, t) matches Ok(Some(p)) ==> p.0 == "SizeX"@),
        lower(k) == "z-index"@ ==> (map_entry(k, v, all, t) matches Ok(Some(p)) ==> p.0 == "ZIndex"@),
{
    lemma_css_names_apart();
    reveal_strlit("Active");
    reveal_strlit("AlignItems");
    reveal_strlit("AnchorPoint");
    reveal_strlit("Animation");
    reveal_strlit("AspectRatio");
    reveal_strlit("AutomaticSize");
    reveal_strlit("BackgroundColor3");
    reveal_strlit("BackgroundTransparency");
    reveal_strlit("BorderColor3");
    reveal_strlit("BorderSizePixel");
    reveal_strlit("CanvasSize");
    reveal_strlit("ClipsDescendants");
    reveal_strlit("CornerRadius");
    reveal_strlit("Draggable");
    reveal_strlit("FlexDirection");
    reveal_strlit("FlexGrow");
    reveal_strlit("Font");
    reveal_strlit("Gradient");
    reveal_strlit("GridCellHeight");
    reveal_strlit("GridCellWidth");
    reveal_strlit("GridPadding");
    reveal_strlit("ImageColor3");
    reveal_strlit("ImageTransparency");
    reveal_strlit("JustifyContent");
    reveal_strlit("LayoutGap");
    reveal_strlit("LayoutOrder");
    reveal_strlit("Padding");
    reveal_strlit("PaddingBottom");
    reveal_strlit("PaddingLeft");
    reveal_strlit("PaddingRight");
    reveal_strlit("PaddingTop");
    reveal_strlit("PositionType");
    reveal_strlit("PositionX");
    reveal_strlit("PositionY");
    reveal_strlit("Rotation");
    reveal_strlit("ScaleType");
    reveal_strlit("ScrollBarThickness");
    reveal_strlit("Selectable");
    reveal_strlit("SizeX");
    reveal_strlit("SizeY");
    reveal_strlit("TextColor3");
    reveal_strlit("TextSize");
    reveal_strlit("TextWrapped");
    reveal_strlit("TextXAlignment");
    reveal_strlit("TextYAlignment");
    reveal_strlit("Transition");
    reveal_strlit("UIScale");
    reveal_strlit("UIStroke");
    reveal_strlit("Visible");
    reveal_strlit("ZIndex");
    reveal_strlit("display");
}

/// The CSS properties (their names in any case) passed through unchanged
/// under a Roblox name: `padding` as `Padding`, `border-radius` as
/// `CornerRadius`, `flex-direction` as `FlexDirection`, and so on.
pub proof fn law_css_renamed_names(k: Seq<char>, v: Seq<char>, all: SProps, t: STable)
    ensures
        lower(k) == "align-items"@ ==> map_entry(k, v, all, t) == kv("AlignItems"@, v),
        lower(k) == "animation"@ ==> map_entry(k, v, all, t) == kv("Animation"@, v),
        lower(k) == "aspect-ratio"@ ==> map_entry(k, v, all, t) == kv("AspectRatio"@, v),
        lower(k) == "border-radius"@ ==> map_entry(k, v, all, t) == kv("CornerRadius"@, v),
        lower(k) == "canvas-size"@ ==> map_entry(k, v, all, t) == kv("CanvasSize"@, v),
        lower(k) == "flex-direction"@ ==> map_entry(k, v, all, t) == kv("FlexDirection"@, v),
        lower(k) == "flex-grow"@ ==> map_entry(k, v, all, t) == kv("FlexGrow"@, v),
        lower(k) == "gradient"@ ==> map_entry(k, v, all, t) == kv("Gradient"@, v),
        lower(k) == "grid-cell-height"@ ==> map_entry(k, v, all, t) == kv("GridCellHeight"@, v),
        lower(k) == "grid-cell-width"@ ==> map_entry(k, v, all, t) == kv("GridCellWidth"@, v),
        lower(k) == "grid-padding"@ ==> map_entry(k, v, all, t) == kv("GridPadding"@, v),
        lower(k) == "justify-content"@ ==> map_entry(k, v, all, t) == kv("JustifyContent"@, v),
        lower(k) == "layout-order"@ ==> map_entry(k, v, all, t) == kv("LayoutOrder"@, v),
        lower(k) == "padding"@ ==> map_entry(k, v, all, t) == kv("Padding"@, v),
        lower(k) == "padding-bottom"@ ==> map_entry(k, v, all, t) == kv("PaddingBottom"@, v),
        lower(k) == "padding-left"@ ==> map_entry(k, v, all, t) == kv("PaddingLeft"@, v),
        lower(k) == "padding-right"@ ==> map_entry(k, v, all, t) == kv("PaddingRight"@, v),
        lower(k) == "padding-top"@ ==> map_entry(k, v, all, t) == kv("PaddingTop"@, v),
        lower(k) == "scale"@ ==> map_entry(k, v, all, t) == kv("UIScale"@, v),
        lower(k) == "stroke"@ ==> map_entry(k, v, all, t) == kv("UIStroke"@, v),
        lower(k) == "transition"@ ==> map_entry(k, v, all, t) == kv("Transition"@, v),
        lower(k) == "ui-scale"@ ==> map_entry(k, v, all, t) == kv("UIScale"@, v),
        lower(k) == "ui-stroke"@ ==> map_entry(k, v, all, t) == kv("UIStroke"@, v),
{
    lemma_css_names_apart();
    reveal_strlit("Active");
    reveal_strlit("AlignItems");
    reveal_strlit("AnchorPoint");
    reveal_strlit("Animation");
    reveal_strlit("AspectRatio");
    reveal_strlit("AutomaticSize");
    reveal_strlit("BackgroundColor3");
    reveal_strlit("BackgroundTransparency");
    reveal_strlit("BorderColor3");
    reveal_strlit("BorderSizePixel");
    reveal_strlit("CanvasSize");
    reveal_strlit("ClipsDescendants");
    reveal_strlit("CornerRadius");
    reveal_strlit("Draggable");
    reveal_strlit("FlexDirection");
    reveal_strlit("FlexGrow");
    reveal_strlit("Font");
    reveal_strlit("Gradient");
    reveal_strlit("GridCellHeight");
    reveal_strlit("GridCellWidth");
    reveal_strlit("GridPadding");
    reveal_strlit("ImageColor3");
    reveal_strlit("ImageTransparency");
    reveal_strlit("JustifyContent");
    reveal_strlit("LayoutGap");
    reveal_strlit("LayoutOrder");
    reveal_strlit("Padding");
    reveal_strlit("PaddingBottom");
    reveal_strlit("PaddingLeft");
    reveal_strlit("PaddingRight");
    reveal_strlit("PaddingTop");
    reveal_strlit("PositionType");
    reveal_strlit("PositionX");
    reveal_strlit("PositionY");
    reveal_strlit("Rotation");
    reveal_strlit("ScaleType");
    reveal_strlit("ScrollBarThickness");
    reveal_strlit("Selectable");
    reveal_strlit("SizeX");
    reveal_strlit("SizeY");
    reveal_strlit("TextColor3");
    reveal_strlit("TextSize");
    reveal_strlit("TextWrapped");
    reveal_strlit("TextXAlignment");
    reveal_strlit("TextYAlignment");
    reveal_strlit("Transition");
    reveal_strlit("UIScale");
    reveal_strlit("UIStroke");
    reveal_strlit("Visible");
    reveal_strlit("ZIndex");
    reveal_strlit("display");
}

/// The Roblox property each numeric, border, transform and text CSS property
/// (its name in any case) becomes: `opacity` sets `BackgroundTransparency`,
/// `font-size` sets `TextSize`, `border-color` sets `BorderColor3`, and so on.
pub proof fn law_css_style_names(k: Seq<char>, v: Seq<char>, all: SProps, t: STable)
    ensures
        lower(k) == "active"@ ==> (map_entry(k, v, all, t) matches Ok(Some(p)) ==> p.0 == "Active"@),
        lower(k) == "anchor-point"@ ==> (map_entry(k, v, all, t) matches Ok(Some(p)) ==> p.0 == "AnchorPoint"@),
        lower(k) == "automatic-size"@ ==> (map_entry(k, v, all, t) matches Ok(Some(p)) ==> p.0 == "AutomaticSize"@),
        lower(k) == "background-transparency"@ ==> (map_entry(k, v, all, t) matches Ok(Some(p)) ==> p.0 == "BackgroundTransparency"@),
        lower(k) == "border"@ ==> (map_entry(k, v, all, t) matches Ok(Some(p)) ==> p.0 == "BorderSizePixel"@),
        lower(k) == "border-color"@ ==> (map_entry(k, v, all, t) matches Ok(Some(p)) ==> p.0 == "BorderColor3"@),
        lower(k) == "border-width"@ ==> (map_entry(k, v, all, t) matches Ok(Some(p)) ==> p.0 == "BorderSizePixel"@),
        lower(k) == "draggable"@ ==> (map_entry(k, v, all, t) matches Ok(Some(p)) ==> p.0 == "Draggable"@),
        lower(k) == "font"@ ==> (map_entry(k, v, all, t) matches Ok(Some(p)) ==> p.0 == "Font"@),
        lower(k) == "font-family"@ ==> (map_entry(k, v, all, t) matches Ok(Some(p)) ==> p.0 == "Font"@),
        lower(k) == "font-size"@ ==> (map_entry(k, v, all, t) matches Ok(Some(p)) ==> p.0 == "TextSize"@),
        lower(k) == "gap"@ ==> (map_entry(k, v, all, t) matches Ok(Some(p)) ==> p.0 == "LayoutGap"@),
        lower(k) == "image-color"@ ==> (map_entry(k, v, all, t) matches Ok(Some(p)) ==> p.0 == "ImageColor3"@),
        lower(k) == "image-transparency"@ ==> (map_entry(k, v, all, t) matches Ok(Some(p)) ==> p.0 == "ImageTransparency"@),
        lower(k) == "object-fit"@ ==> (map_entry(k, v, all, t) matches Ok(Some(p)) ==> p.0 == "ScaleType"@),
        lower(k) == "opacity"@ ==> (map_entry(k, v, all, t) matches Ok(Some(p)) ==> p.0 == "BackgroundTransparency"@),
        lower(k) == "overflow"@ ==> (map_entry(k, v, all, t) matches Ok(Some(p)) ==> p.0 == "ClipsDescendants"@),
        lower(k) == "rotate"@ ==> (map_entry(k, v, all, t) matches Ok(Some(p)) ==> p.0 == "Rotation"@),
        lower(k) == "row-gap"@ ==> (map_entry(k, v, all, t) matches Ok(Some(p)) ==> p.0 == "LayoutGap"@),
        lower(k) == "scale-type"@ ==> (map_entry(k, v, all, t) matches Ok(Some(p)) ==> p.0 == "ScaleType"@),
        lower(k) == "scroll-bar-thickness"@ ==> (map_entry(k, v, all, t) matches Ok(Some(p)) ==> p.0 == "ScrollBarThickness"@),
        lower(k) == "selectable"@ ==> (map_entry(k, v, all, t) matches Ok(Some(p)) ==> p.0 == "Selectable"@),
        lower(k) == "text-align"@ ==> (map_entry(k, v, all, t) matches Ok(Some(p)) ==> p.0 == "TextXAlignment"@),
        lower(k) == "text-size"@ ==> (map_entry(k, v, all, t) matches Ok(Some(p)) ==> p.0 == "TextSize"@),
        lower(k) == "text-wrap"@ ==> (map_entry(k, v, all, t) matches Ok(Some(p)) ==> p.0 == "TextWrapped"@),
        lower(k) == "text-x-align"@ ==> (map_entry(k, v, all, t) matches Ok(Some(p)) ==> p.0 == "TextXAlignment"@),
        lower(k) == "text-y-align"@ ==> (map_entry(k, v, all, t) matches Ok(Some(p)) ==> p.0 == "TextYAlignment"@),
        lower(k) == "transform"@ ==> (map_entry(k, v, all, t) matches Ok(Some(p)) ==> p.0 == "Rotation"@),
        lower(k) == "transform-origin"@ ==> (map_entry(k, v, all, t) matches Ok(Some(p)) ==> p.0 == "AnchorPoint"@),
        lower(k) == "vertical-align"@ ==> (map_entry(k, v, all, t) matches Ok(Some(p)) ==> p.0 == "TextYAlignment"@),
{
    lemma_css_names_apart();
    reveal_strlit("Active");
    reveal_strlit("AlignItems");
    reveal_strlit("AnchorPoint");
    reveal_strlit("Animation");
    reveal_strlit("AspectRatio");
    reveal_strlit("AutomaticSize");
    reveal_strlit("BackgroundColor3");
    reveal_strlit("BackgroundTransparency");
    reveal_strlit("BorderColor3");
    reveal_strlit("BorderSizePixel");
    reveal_strlit("CanvasSize");
    reveal_strlit("ClipsDescendants");
    reveal_strlit("CornerRadius");
    reveal_strlit("Draggable");
    reveal_strlit("FlexDirection");
    reveal_strlit("FlexGrow");
    reveal_strlit("Font");
    reveal_strlit("Gradient");
    reveal_strlit("GridCellHeight");
    reveal_strlit("GridCellWidth");
    reveal_strlit("GridPadding");
    reveal_strlit("ImageColor3");
    reveal_strlit("ImageTransparency");
    reveal_strlit("JustifyContent");
    reveal_strlit("LayoutGap");
    reveal_strlit("LayoutOrder");
    reveal_strlit("Padding");
    reveal_strlit("PaddingBottom");
    reveal_strlit("PaddingLeft");
    reveal_strlit("PaddingRight");
    reveal_strlit("PaddingTop");
    reveal_strlit("PositionType");
    reveal_strlit("PositionX");
    reveal_strlit("PositionY");
    reveal_strlit("Rotation");
    reveal_strlit("ScaleType");
    reveal_strlit("ScrollBarThickness");
    reveal_strlit("Selectable");
    reveal_strlit("SizeX");
    reveal_strlit("SizeY");
    reveal_strlit("TextColor3");
    reveal_strlit("TextSize");
    reveal_strlit("TextWrapped");
    reveal_strlit("TextXAlignment");
    reveal_strlit("TextYAlignment");
    reveal_strlit("Transition");
    reveal_strlit("UIScale");
    reveal_strlit("UIStroke");
    reveal_strlit("Visible");
    reveal_strlit("ZIndex");
    reveal_strlit("display");
}



/// `display: none` (any case) hides the element; `grid`, `table` and `page`
/// are kept as the layout to build; a value holding `flex` is kept as it
/// stands; any other value sets nothing.
pub proof fn law_display_values(v: Seq<char>)
    ensures
        eq_ic(trim(v), "none"@) ==> display(v) == Some(("Visible"@, "false"@)),
        !eq_ic(trim(v), "none"@) && eq_ic(trim(v), "grid"@) ==> display(v) == Some(("display"@, "grid"@)),
        !eq_ic(trim(v), "none"@) && !eq_ic(trim(v), "grid"@) && eq_ic(trim(v), "table"@) ==> display(v)
            == Some(("display"@, "table"@)),
        !eq_ic(trim(v), "none"@) && !eq_ic(trim(v), "grid"@) && !eq_ic(trim(v), "table"@) && eq_ic(
            trim(v),
            "page"@,
        ) ==> display(v) == Some(("display"@, "page"@)),
        !eq_ic(trim(v), "none"@) && !eq_ic(trim(v), "grid"@) && !eq_ic(trim(v), "table"@) && !eq_ic(
            trim(v),
            "page"@,
        ) ==> display(v) == if contains(v, "flex"@) {
            Some(("display"@, v))
        } else {
            None
        },
{
}

/// `object-fit`/`scale-type` words in any case: `fill` stretches, `contain`
/// fits, `cover` crops, and anything else stretches.
pub proof fn law_scale_type_words(v: Seq<char>)
    ensures
        contains(lower(v), "fill"@) ==> scale_type(v) == "Enum.ScaleType.Stretch"@,
        !contains(lower(v), "fill"@) && contains(lower(v), "contain"@) ==> scale_type(v)
            == "Enum.ScaleType.Fit"@,
        !contains(lower(v), "fill"@) && !contains(lower(v), "contain"@) && contains(lower(v), "cover"@)
            ==> scale_type(v) == "Enum.ScaleType.Crop"@,
        !contains(lower(v), "fill"@) && !contains(lower(v), "contain"@) && !contains(lower(v), "cover"@)
            ==> scale_type(v) == "Enum.ScaleType.Stretch"@,
{
}

/// `automatic-size` grows along the axes its value names (`x`, `y`, both, in
/// any case); a value naming neither sets nothing.
pub proof fn law_automatic_size_axes(v: Seq<char>)
    ensures
        contains(lower(v), "x"@) && contains(lower(v), "y"@) ==> auto_size(v) == kv(
            "AutomaticSize"@,
            "Enum.AutomaticSize.XY"@,
        ),
        contains(lower(v), "x"@) && !contains(lower(v), "y"@) ==> auto_size(v) == kv(
            "AutomaticSize"@,
            "Enum.AutomaticSize.X"@,
        ),
        !contains(lower(v), "x"@) && contains(lower(v), "y"@) ==> auto_size(v) == kv(
            "AutomaticSize"@,
            "Enum.AutomaticSize.Y"@,
        ),
        !contains(lower(v), "x"@) && !contains(lower(v), "y"@) ==> auto_size(v) == Ok::<
            Option<(Seq<char>, Seq<char>)>,
            SHalt,
        >(None),
{
}


/// Colors: a `#` code of three ASCII characters is widened to six by
/// doubling each character in place; any other `#` code is kept as it is; a
/// `rgb(...)` with three channels becomes `Color3.new` of the answers for
/// the three channels in order, and one with fewer is black; `var(--a-b)`
/// becomes the theme color `Theme.AB`; anything else is black.
pub proof fn law_color_values(value: Seq<char>, t: STable)
    ensures
        ({
            let v = trim(value);
            let hex = strip_prefixes(v, "#"@);
            let nums = float_pieces(split_char(keep_number_chars(v, true), ','));
            &&& starts_with(v, "#"@) && utf8_len(hex) == 3 && is_ascii(hex) ==> color(value, t) == Ok::<
                Seq<char>,
                SHalt,
            >("Color3.fromHex(\""@ + seq![hex[0], hex[0], hex[1], hex[1], hex[2], hex[2]] + "\")"@)
            &&& starts_with(v, "#"@) && utf8_len(hex) != 3 ==> color(value, t) == Ok::<
                Seq<char>,
                SHalt,
            >("Color3.fromHex(\""@ + hex + "\")"@)
            &&& !starts_with(v, "#"@) && starts_with(v, "rgb"@) && nums.len() >= 3 ==> (num(
                t,
                NumOp::Channel,
                nums[0],
            ) matches Ok(r) ==> (num(t, NumOp::Channel, nums[1]) matches Ok(g) ==> (num(
                t,
                NumOp::Channel,
                nums[2],
            ) matches Ok(b) ==> color(value, t) == Ok::<Seq<char>, SHalt>(
                "Color3.new("@ + r + ", "@ + g + ", "@ + b + ")"@,
            ))))
            &&& !starts_with(v, "#"@) && starts_with(v, "rgb"@) && nums.len() < 3 ==> color(value, t)
                == Ok::<Seq<char>, SHalt>("Color3.new(0, 0, 0)"@)
            &&& !starts_with(v, "#"@) && !starts_with(v, "rgb"@) && starts_with(v, "var("@) ==> color(
                value,
                t,
            ) == Ok::<Seq<char>, SHalt>(
                "Theme."@ + camel(
                    split_char(
                        trim(strip_prefixes(strip_suffixes(strip_prefixes(v, "var("@), ")"@), "--"@)),
                        '-',
                    ),
                ),
            )
            &&& !starts_with(v, "#"@) && !starts_with(v, "rgb"@) && !starts_with(v, "var("@) ==> color(
                value,
                t,
            ) == Ok::<Seq<char>, SHalt>("Color3.new(0, 0, 0)"@)
        }),
{
}

} // verus!
