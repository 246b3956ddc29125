//! Luau source generated from the UI tree: commented, with viewport scaling.
use vstd::prelude::*;
use crate::text::{
    chars_of, contains, contains_str, dec, eq_ic, eq_ic_str, int_dec, lower, parse_i32,
    parse_i32_v, push_all, push_dec, push_int, push_str, same, same_str, spaces, spaces_v,
    starts_with, starts_with_str, strip_suffixes, strip_suffixes_str, to_lowercase, to_string,
    trim, trim_v, views, words, words_v, find, lemma_find_from, occurs_at,
};
use crate::num::{asks_fresh, uncut, fresh, lookup, fresh_err, no_boundary, is_float_lit, lit_or, lit_or_v, float_lit, num, number, resv, Halt, NumOp, NumTable, SHalt, STable};
use crate::dom::{lemma_nviews, nview, nviews, pget, phas, LuauNode, PropMap, SNode, SProps};

verus! {

pub open spec fn esc_char(c: char) -> Seq<char> {
    if c == '\\' {
        seq!['\\', '\\']
    } else if c == '"' {
        seq!['\\', '"']
    } else if c == '\n' {
        seq!['\\', 'n']
    } else if c == '\r' {
        seq!['\\', 'r']
    } else if c == '\t' {
        seq!['\\', 't']
    } else {
        seq![c]
    }
}

pub open spec fn esc_body(s: Seq<char>) -> Seq<char>
    decreases s.len(),
{
    if s.len() == 0 {
        s
    } else {
        esc_body(s.drop_last()) + esc_char(s.last())
    }
}

/// `escape_lua_string`: a double-quoted Lua string literal.
pub open spec fn lua_str(s: Seq<char>) -> Seq<char> {
    seq!['"'] + esc_body(s) + seq!['"']
}

pub fn push_lua_str(out: &mut Vec<char>, s: &Vec<char>)
    ensures
        final(out)@ == old(out)@ + lua_str(s@),
{
    let ghost o0 = out@;
    out.push('"');
    let mut i: usize = 0;
    proof {
        assert(s@.take(0) =~= Seq::<char>::empty());
        assert(out@ =~= o0 + seq!['"'] + esc_body(s@.take(0)));
    }
    while i < s.len()
        invariant
            i <= s.len(),
            out@ == o0 + seq!['"'] + esc_body(s@.take(i as int)),
        decreases s.len() - i,
    {
        let c = s[i];
        let ghost before = out@;
        if c == '\\' {
            out.push('\\');
            out.push('\\');
        } else if c == '"' {
            out.push('\\');
            out.push('"');
        } else if c == '\n' {
            out.push('\\');
            out.push('n');
        } else if c == '\r' {
            out.push('\\');
            out.push('r');
        } else if c == '\t' {
            out.push('\\');
            out.push('t');
        } else {
            out.push(c);
        }
        proof {
            assert(s@.take(i + 1).drop_last() =~= s@.take(i as int));
            assert(out@ =~= before + esc_char(c));
        }
        i = i + 1;
    }
    out.push('"');
    assert(s@.take(s.len() as int) =~= s@);
    assert(final(out)@ =~= o0 + lua_str(s@));
}

/// `escape_lua_string`: escapes a string into a Lua double-quoted string literal.
pub fn escape_lua_string(s: &str) -> (r: String)
    ensures
        r@ == lua_str(s@),
{
    let mut out: Vec<char> = Vec::new();
    push_lua_str(&mut out, &chars_of(s));
    assert(out@ =~= lua_str(s@));
    to_string(&out)
}

/// What a helper object does, as `helper_comment` writes it in comments.
pub open spec fn comment_for(it: Seq<char>) -> Seq<char> {
    if it == "UIListLayout"@ {
        "layout controller (flex arrangement)"@
    } else if it == "UIPadding"@ {
        "inner padding"@
    } else if it == "UICorner"@ {
        "rounded corners"@
    } else if it == "UIGridLayout"@ {
        "grid layout controller"@
    } else if it == "UITableLayout"@ {
        "table layout controller"@
    } else if it == "UIPageLayout"@ {
        "page layout controller"@
    } else if it == "UIGradient"@ {
        "background gradient"@
    } else if it == "UIStroke"@ {
        "border stroke"@
    } else if it == "UIScale"@ {
        "scale modifier"@
    } else if it == "UIFlexItem"@ {
        "flex item sizing"@
    } else if it == "UIAspectRatioConstraint"@ {
        "aspect ratio constraint"@
    } else {
        "UI modifier"@
    }
}

pub fn helper_comment(it: &Vec<char>) -> (r: Vec<char>)
    ensures
        r@ == comment_for(it@),
{
    if same_str(it, "UIListLayout") {
        chars_of("layout controller (flex arrangement)")
    } else if same_str(it, "UIPadding") {
        chars_of("inner padding")
    } else if same_str(it, "UICorner") {
        chars_of("rounded corners")
    } else if same_str(it, "UIGridLayout") {
        chars_of("grid layout controller")
    } else if same_str(it, "UITableLayout") {
        chars_of("table layout controller")
    } else if same_str(it, "UIPageLayout") {
        chars_of("page layout controller")
    } else if same_str(it, "UIGradient") {
        chars_of("background gradient")
    } else if same_str(it, "UIStroke") {
        chars_of("border stroke")
    } else if same_str(it, "UIScale") {
        chars_of("scale modifier")
    } else if same_str(it, "UIFlexItem") {
        chars_of("flex item sizing")
    } else if same_str(it, "UIAspectRatioConstraint") {
        chars_of("aspect ratio constraint")
    } else {
        chars_of("UI modifier")
    }
}

/// Values that are already Luau expressions.
pub open spec fn is_luau_expr(v: Seq<char>) -> bool {
    starts_with(v, "Color3."@) || starts_with(v, "UDim2."@) || starts_with(v, "UDim."@)
        || starts_with(v, "Vector2."@) || starts_with(v, "Enum."@) || v == "true"@ || v
        == "false"@
}

pub open spec fn int_key(kl: Seq<char>) -> bool {
    kl == "bordersizepixel"@ || kl == "textsize"@ || kl == "scrollbarthickness"@ || kl
        == "layoutorder"@
}

pub open spec fn fraction_key(kl: Seq<char>) -> bool {
    kl == "imagetransparency"@ || kl == "backgroundtransparency"@
}

/// `map_property_to_luau`: Luau expressions pass through, integer and
/// transparency properties are normalized, `RichText` is raw, the rest quoted.
pub open spec fn map_prop(key: Seq<char>, value: Seq<char>, t: STable) -> Result<Seq<char>, SHalt> {
    if is_luau_expr(value) {
        Ok(value)
    } else {
        let kl = lower(key);
        if int_key(kl) && parse_i32(trim(value)) is Some {
            Ok(int_dec(parse_i32(trim(value))->0))
        } else if fraction_key(kl) && is_float_lit(trim(value)) {
            num(t, NumOp::Show, trim(value))
        } else if kl == "richtext"@ {
            Ok(value)
        } else {
            Ok(lua_str(value))
        }
    }
}

pub fn map_prop_v(key: &Vec<char>, value: &Vec<char>, t: &NumTable) -> (r: Result<Vec<char>, Halt>)
    ensures
        no_boundary(r),
        fresh_err(t@, r),
        resv(r) == map_prop(key@, value@, t@),
{
    if starts_with_str(value, "Color3.") || starts_with_str(value, "UDim2.") || starts_with_str(
        value,
        "UDim.",
    ) || starts_with_str(value, "Vector2.") || starts_with_str(value, "Enum.") || same_str(
        value,
        "true",
    ) || same_str(value, "false") {
        return Ok(crate::text::copy(value));
    }
    let kl = to_lowercase(key);
    let tv = trim_v(value);
    if same_str(&kl, "bordersizepixel") || same_str(&kl, "textsize") || same_str(
        &kl,
        "scrollbarthickness",
    ) || same_str(&kl, "layoutorder") {
        if let Some(n) = parse_i32_v(&tv) {
            let mut o: Vec<char> = Vec::new();
            push_int(&mut o, n as i64);
            assert(o@ =~= int_dec(n as int));
            return Ok(o);
        }
    }
    if (same_str(&kl, "imagetransparency") || same_str(&kl, "backgroundtransparency"))
        && float_lit(&tv) {
        return number(t, NumOp::Show, &tv);
    }
    if same_str(&kl, "richtext") {
        Ok(crate::text::copy(value))
    } else {
        let mut o: Vec<char> = Vec::new();
        push_lua_str(&mut o, value);
        assert(o@ =~= lua_str(value@));
        Ok(o)
    }
}

/// Maps a property key and value to its Luau representation.
pub fn map_property_to_luau(key: &str, value: &str, t: &NumTable) -> (r: Result<String, Halt>)
    ensures
        no_boundary(r),
        fresh_err(t@, r),
        resv(r) == map_prop(key@, value@, t@),
{
    let v = map_prop_v(&chars_of(key), &chars_of(value), t)?;
    Ok(to_string(&v))
}

/// `parse_easing`: the easing style named in a CSS easing function.
pub open spec fn easing_style(e: Seq<char>) -> Seq<char> {
    let l = lower(e);
    if contains(l, "elastic"@) {
        "Elastic"@
    } else if contains(l, "back"@) {
        "Back"@
    } else if contains(l, "bounce"@) {
        "Bounce"@
    } else if contains(l, "expo"@) || contains(l, "exponential"@) {
        "Exponential"@
    } else if contains(l, "quad"@) {
        "Quad"@
    } else if contains(l, "cubic"@) {
        "Cubic"@
    } else if contains(l, "quart"@) {
        "Quart"@
    } else if contains(l, "quint"@) {
        "Quint"@
    } else if contains(l, "sine"@) {
        "Sine"@
    } else if contains(l, "circ"@) || contains(l, "circle"@) {
        "Circ"@
    } else {
        "Quad"@
    }
}

/// `parse_easing`: the easing direction named in a CSS easing function.
pub open spec fn easing_dir(e: Seq<char>) -> Seq<char> {
    let l = lower(e);
    if contains(l, "inout"@) {
        "InOut"@
    } else if contains(l, "in"@) && !contains(l, "out"@) {
        "In"@
    } else {
        "Out"@
    }
}

/// `parse_easing`: Roblox `EasingStyle` and `EasingDirection` enums.
pub open spec fn easing(e: Seq<char>) -> (Seq<char>, Seq<char>) {
    ("Enum.EasingStyle."@ + easing_style(e), "Enum.EasingDirection."@ + easing_dir(e))
}

pub fn parse_easing(e: &Vec<char>) -> (r: (Vec<char>, Vec<char>))
    ensures
        (r.0@, r.1@) == easing(e@),
{
    let l = to_lowercase(e);
    let style = if contains_str(&l, "elastic") {
        "Elastic"
    } else if contains_str(&l, "back") {
        "Back"
    } else if contains_str(&l, "bounce") {
        "Bounce"
    } else if contains_str(&l, "expo") || contains_str(&l, "exponential") {
        "Exponential"
    } else if contains_str(&l, "quad") {
        "Quad"
    } else if contains_str(&l, "cubic") {
        "Cubic"
    } else if contains_str(&l, "quart") {
        "Quart"
    } else if contains_str(&l, "quint") {
        "Quint"
    } else if contains_str(&l, "sine") {
        "Sine"
    } else if contains_str(&l, "circ") || contains_str(&l, "circle") {
        "Circ"
    } else {
        "Quad"
    };
    let dir = if contains_str(&l, "inout") {
        "InOut"
    } else if contains_str(&l, "in") && !contains_str(&l, "out") {
        "In"
    } else {
        "Out"
    };
    let mut s = chars_of("Enum.EasingStyle.");
    push_str(&mut s, style);
    let mut d = chars_of("Enum.EasingDirection.");
    push_str(&mut d, dir);
    (s, d)
}

/// Values that are already Luau expressions (`Color3.`, `UDim2.`, `UDim.`,
/// `Vector2.`, `Enum.` constructors, `true`, `false`) are written as they are,
/// whatever the property.
pub proof fn law_luau_expr_passthrough(key: Seq<char>, value: Seq<char>, t: STable)
    requires
        is_luau_expr(value),
    ensures
        map_prop(key, value, t) == Ok::<Seq<char>, SHalt>(value),
{
}

/// The module form ends by returning the root ScreenGui; the standalone
/// form ends by mounting it into the player's GUI.
pub proof fn law_generated_ending(root: SNode, standalone: bool, t: STable)
    ensures
        gen(root, standalone, t) matches Ok(s) ==> {
            let tail = if standalone {
                "\n-- === Mount to PlayerGui ===\nroot.Parent = playerGui\n"@
            } else {
                "\nreturn root\n"@
            };
            &&& s.len() >= tail.len()
            &&& s.skip(s.len() - tail.len()) == tail
        },
{
    let tail = if standalone {
        "\n-- === Mount to PlayerGui ===\nroot.Parent = playerGui\n"@
    } else {
        "\nreturn root\n"@
    };
    let o1 = header_text();
    let o2 = if standalone {
        stubs(o1 + services_text(), handlers(root))
    } else {
        o1
    };
    let o3 = o2 + root_text() + viewport_text() + "\n-- === UI Tree ===\n"@;
    if let Ok((o4, _)) = emit(o3, root, "root"@, 0, 0, t) {
        let s = o4 + tail;
        assert(s.skip(s.len() - tail.len()) =~= tail);
    }
}

/// The character a Lua reader gives for the escape `\c`, for the escapes that
/// `escape_lua_string` writes (`None` for the others, which are not modelled).
pub open spec fn lua_escape(c: char) -> Option<char> {
    if c == 'n' {
        Some('\n')
    } else if c == 'r' {
        Some('\r')
    } else if c == 't' {
        Some('\t')
    } else if c == '\\' {
        Some('\\')
    } else if c == '"' {
        Some('"')
    } else {
        None
    }
}

/// A Lua reader on the text after the opening quote of a short string: the
/// characters the literal stands for and the position of its closing quote;
/// `None` at a raw line break, at the end of the text, or at an escape not
/// modelled here.
pub open spec fn lua_read(s: Seq<char>) -> Option<(Seq<char>, int)>
    decreases s.len(),
{
    if s.len() == 0 {
        None
    } else if s[0] == '"' {
        Some((Seq::empty(), 0))
    } else if s[0] == '\n' || s[0] == '\r' {
        None
    } else if s[0] == '\\' {
        if s.len() < 2 {
            None
        } else {
            match lua_escape(s[1]) {
                Some(d) => match lua_read(s.skip(2)) {
                    Some(r) => Some((seq![d] + r.0, r.1 + 2)),
                    None => None,
                },
                None => None,
            }
        }
    } else {
        match lua_read(s.drop_first()) {
            Some(r) => Some((seq![s[0]] + r.0, r.1 + 1)),
            None => None,
        }
    }
}

proof fn lemma_esc_body_append(a: Seq<char>, b: Seq<char>)
    ensures
        esc_body(a + b) == esc_body(a) + esc_body(b),
    decreases b.len(),
{
    if b.len() == 0 {
        assert(a + b =~= a);
        assert(esc_body(a) + esc_body(b) =~= esc_body(a));
    } else {
        assert((a + b).drop_last() =~= a + b.drop_last());
        assert((a + b).last() == b.last());
        lemma_esc_body_append(a, b.drop_last());
        assert(esc_body(a + b) =~= esc_body(a) + esc_body(b));
    }
}

proof fn lemma_lua_read_escaped(s: Seq<char>, rest: Seq<char>)
    ensures
        lua_read(esc_body(s) + seq!['"'] + rest) == Some((s, esc_body(s).len() as int)),
    decreases s.len(),
{
    if s.len() == 0 {
        assert(esc_body(s) + seq!['"'] + rest =~= seq!['"'] + rest);
        assert(s =~= Seq::<char>::empty());
    } else {
        let c = s[0];
        let t = s.drop_first();
        assert(seq![c] + t =~= s);
        lemma_esc_body_append(seq![c], t);
        assert(seq![c].drop_last() =~= Seq::<char>::empty());
        assert(esc_body(Seq::<char>::empty()) == Seq::<char>::empty());
        assert(seq![c].last() == c);
        assert(esc_body(seq![c]) =~= esc_char(c));
        lemma_lua_read_escaped(t, rest);
        let y = esc_body(t) + seq!['"'] + rest;
        let x = esc_body(s) + seq!['"'] + rest;
        assert(x =~= esc_char(c) + y);
        if c == '\\' || c == '"' || c == '\n' || c == '\r' || c == '\t' {
            assert(x.skip(2) =~= y);
            assert(seq![c] + t =~= s);
        } else {
            assert(x.drop_first() =~= y);
        }
    }
}

/// `escape_lua_string` writes a literal that a Lua reader closes exactly at
/// its last quote, whatever follows it, and reads back as the original text.
pub proof fn law_escape_round_trip(s: Seq<char>, rest: Seq<char>)
    ensures
        lua_str(s)[0] == '"',
        lua_read(lua_str(s).drop_first() + rest) == Some((s, lua_str(s).len() - 2)),
{
    assert(lua_str(s).drop_first() + rest =~= esc_body(s) + seq!['"'] + rest);
    lemma_lua_read_escaped(s, rest);
}

proof fn lemma_esc_body_plain(s: Seq<char>)
    ensures
        forall|i: int|
            0 <= i < esc_body(s).len() ==> #[trigger] esc_body(s)[i] != '\n' && esc_body(s)[i]
                != '\r' && esc_body(s)[i] != '\t',
    decreases s.len(),
{
    if s.len() > 0 {
        lemma_esc_body_plain(s.drop_last());
        let a = esc_body(s.drop_last());
        let b = esc_char(s.last());
        assert forall|i: int| 0 <= i < esc_body(s).len() implies #[trigger] esc_body(s)[i] != '\n'
            && esc_body(s)[i] != '\r' && esc_body(s)[i] != '\t' by {
            if i < a.len() {
                assert(esc_body(s)[i] == a[i]);
            } else {
                assert(esc_body(s)[i] == b[i - a.len()]);
            }
        }
    }
}

/// The literal `escape_lua_string` writes is at least two characters long,
/// starts and ends with a double quote, and holds no raw line feed, carriage
/// return or tab.
pub proof fn law_escaped_literal_is_one_line(s: Seq<char>)
    ensures
        lua_str(s).len() >= 2,
        lua_str(s)[0] == '"',
        lua_str(s).last() == '"',
        forall|i: int|
            0 <= i < lua_str(s).len() ==> #[trigger] lua_str(s)[i] != '\n' && lua_str(s)[i]
                != '\r' && lua_str(s)[i] != '\t',
{
    lemma_esc_body_plain(s);
    let b = esc_body(s);
    assert forall|i: int| 0 <= i < lua_str(s).len() implies #[trigger] lua_str(s)[i] != '\n'
        && lua_str(s)[i] != '\r' && lua_str(s)[i] != '\t' by {
        if 1 <= i < b.len() + 1 {
            assert(lua_str(s)[i] == b[i - 1]);
        }
    }
}

/// Whether some node of the tree has `h` as its `data-onclick` handler.
pub open spec fn has_handler(n: SNode, h: Seq<char>) -> bool
    decreases n,
{
    pget(n.props, "data-onclick"@) == Some(h) || kids_have_handler(n.children, h)
}

pub open spec fn kids_have_handler(ks: Seq<SNode>, h: Seq<char>) -> bool
    decreases ks,
{
    ks.len() > 0 && (has_handler(ks[0], h) || kids_have_handler(ks.drop_first(), h))
}

proof fn lemma_add_new(acc: Seq<Seq<char>>, hs: Seq<Seq<char>>)
    ensures
        acc.no_duplicates() ==> add_new(acc, hs).no_duplicates(),
        forall|x: Seq<char>| #[trigger] add_new(acc, hs).contains(x) <==> acc.contains(x) || hs.contains(x),
    decreases hs.len(),
{
    if hs.len() > 0 {
        let a = if acc.contains(hs[0]) {
            acc
        } else {
            acc.push(hs[0])
        };
        lemma_add_new(a, hs.drop_first());
        assert(add_new(acc, hs) == add_new(a, hs.drop_first()));
        assert forall|x: Seq<char>| #[trigger] add_new(acc, hs).contains(x) <==> acc.contains(x)
            || hs.contains(x) by {
            assert(add_new(a, hs.drop_first()).contains(x) <==> a.contains(x) || hs.drop_first().contains(
                x,
            ));
            if hs.contains(x) && !hs.drop_first().contains(x) {
                let i = choose|i: int| 0 <= i < hs.len() && hs[i] == x;
                if i > 0 {
                    assert(hs.drop_first()[i - 1] == x);
                }
                assert(a.contains(hs[0])) by {
                    if !acc.contains(hs[0]) {
                        assert(a[acc.len() as int] == hs[0]);
                    }
                }
            }
            if hs.drop_first().contains(x) {
                let i = choose|i: int| 0 <= i < hs.drop_first().len() && hs.drop_first()[i] == x;
                assert(hs[i + 1] == x);
            }
            if a.contains(x) && !acc.contains(x) {
                let i = choose|i: int| 0 <= i < a.len() && a[i] == x;
                assert(i == acc.len());
                assert(hs[0] == x);
            }
            if acc.contains(x) {
                let i = choose|i: int| 0 <= i < acc.len() && acc[i] == x;
                assert(a[i] == x);
            }
        }
        if acc.no_duplicates() && !acc.contains(hs[0]) {
            assert(a.no_duplicates()) by {
                assert forall|i: int, j: int| 0 <= i < a.len() && 0 <= j < a.len() && i != j implies a[i]
                    != a[j] by {
                    if i == acc.len() {
                        assert(acc[j] == a[j]);
                    } else if j == acc.len() {
                        assert(acc[i] == a[i]);
                    }
                }
            }
        }
    }
}

proof fn lemma_handlers(n: SNode)
    ensures
        handlers(n).no_duplicates(),
        forall|x: Seq<char>| #[trigger] handlers(n).contains(x) <==> has_handler(n, x),
    decreases n,
{
    let own = match pget(n.props, "data-onclick"@) {
        Some(h) => seq![h],
        None => Seq::empty(),
    };
    lemma_handlers_kids(own, n.children);
    assert forall|x: Seq<char>| #[trigger] handlers(n).contains(x) <==> has_handler(n, x) by {
        if own.contains(x) {
            let i = choose|i: int| 0 <= i < own.len() && own[i] == x;
        }
        if pget(n.props, "data-onclick"@) == Some(x) {
            assert(own[0] == x);
        }
    }
}

proof fn lemma_handlers_kids(acc: Seq<Seq<char>>, ks: Seq<SNode>)
    ensures
        acc.no_duplicates() ==> handlers_kids(acc, ks).no_duplicates(),
        forall|x: Seq<char>| #[trigger] handlers_kids(acc, ks).contains(x) <==> acc.contains(x)
            || kids_have_handler(ks, x),
    decreases ks,
{
    if ks.len() > 0 {
        lemma_handlers(ks[0]);
        lemma_add_new(acc, handlers(ks[0]));
        let a = add_new(acc, handlers(ks[0]));
        lemma_handlers_kids(a, ks.drop_first());
        assert(handlers_kids(acc, ks) == handlers_kids(a, ks.drop_first()));
        assert forall|x: Seq<char>| #[trigger] handlers_kids(acc, ks).contains(x) <==> acc.contains(x)
            || kids_have_handler(ks, x) by {
            assert(handlers_kids(a, ks.drop_first()).contains(x) <==> a.contains(x)
                || kids_have_handler(ks.drop_first(), x));
            assert(a.contains(x) <==> acc.contains(x) || handlers(ks[0]).contains(x));
            assert(handlers(ks[0]).contains(x) <==> has_handler(ks[0], x));
        }
    }
}

/// `collect_handlers` names each handler of the tree exactly once: a name is
/// in the list if and only if some node of the tree has it as `data-onclick`,
/// and no name stands twice.
pub proof fn law_handlers_each_once(n: SNode)
    ensures
        handlers(n).no_duplicates(),
        forall|h: Seq<char>| #[trigger] handlers(n).contains(h) <==> has_handler(n, h),
{
    lemma_handlers(n);
}

/// The Roblox instances a tree stands for: each node and each of its helpers.
pub open spec fn instances(n: SNode) -> nat
    decreases n,
{
    1 + n.helpers.len() + kids_instances(n.children)
}

pub open spec fn kids_instances(ks: Seq<SNode>) -> nat
    decreases ks,
{
    if ks.len() == 0 {
        0
    } else {
        instances(ks[0]) + kids_instances(ks.drop_first())
    }
}

proof fn lemma_helpers_count(out: Seq<char>, hs: Seq<SNode>, i: int, var: Seq<char>, ind: Seq<char>, c: nat, t: STable)
    requires
        0 <= i <= hs.len(),
    ensures
        helpers_out(out, hs, i, var, ind, c, t) matches Ok((_, c2)) ==> c2 == c + (hs.len() - i),
    decreases hs.len() - i,
{
    if i < hs.len() && c + 1 <= u32::MAX {
        let c1 = (c + 1) as nat;
        let h = hs[i];
        let hvar = var_name(h.itype, c1);
        let o = out + ind + "-- "@ + comment_for(h.itype) + "\n"@ + ind + "local "@ + hvar
            + " = Instance.new("@ + lua_str(h.itype) + ")\n"@ + ind + hvar + ".Parent = "@ + var
            + "\n"@;
        if let Ok(o2) = hprops(o, h.props, 0, ind, hvar, t) {
            lemma_helpers_count(o2, hs, i + 1, var, ind, c1, t);
        }
    }
}

proof fn lemma_emit_count(out: Seq<char>, n: SNode, parent: Seq<char>, c: nat, level: nat, t: STable)
    ensures
        emit(out, n, parent, c, level, t) matches Ok((_, c2)) ==> c2 == c + instances(n),
    decreases n,
{
    if c + 1 <= u32::MAX {
        let c1 = (c + 1) as nat;
        let var = var_name(n.itype, c1);
        let ind = spaces(level);
        if let Ok(o1) = top_lines(out, n, var, ind, parent, t) {
            lemma_helpers_count(o1, n.helpers, 0, var, ind, c1, t);
            if let Ok((o2, c2)) = helpers_out(o1, n.helpers, 0, var, ind, c1, t) {
                if let Ok(o3) = nprops(o2, n.props, 0, ind, var, t) {
                    if let Ok(o4) = click(o3, n.props, ind, level, var) {
                        if let Ok(o5) = tweens(o4, n.props, var, ind, level, t) {
                            lemma_emit_kids_count(o5, n.children, var, c2, level, t);
                        }
                    }
                }
            }
        }
    }
}

proof fn lemma_emit_kids_count(out: Seq<char>, kids: Seq<SNode>, parent: Seq<char>, c: nat, level: nat, t: STable)
    ensures
        emit_kids(out, kids, parent, c, level, t) matches Ok((_, c2)) ==> c2 == c + kids_instances(kids),
    decreases kids,
{
    if kids.len() > 0 && level + 1 <= u32::MAX {
        lemma_emit_count(out, kids[0], parent, c, (level + 1) as nat, t);
        if let Ok((o, c1)) = emit(out, kids[0], parent, c, (level + 1) as nat, t) {
            lemma_emit_kids_count(o, kids.drop_first(), parent, c1, level, t);
        }
    }
}

/// Each node and each helper of the tree becomes one numbered instance
/// variable: emitting a tree advances the variable counter by exactly the
/// number of its instances.
pub proof fn law_one_instance_per_node(out: Seq<char>, n: SNode, parent: Seq<char>, c: nat, level: nat, t: STable)
    ensures
        emit(out, n, parent, c, level, t) matches Ok((_, c2)) ==> c2 == c + instances(n),
{
    lemma_emit_count(out, n, parent, c, level, t);
}

} // verus!

verus! {

pub open spec fn bt_target() -> Seq<char> {
    "{ BackgroundTransparency = 0 }"@
}

pub open spec fn size_target() -> Seq<char> {
    "{ Size = UDim2.fromScale(1, 1) }"@
}

/// The tween that plays when the element is mounted, after `out`.
pub open spec fn tween(
    out: Seq<char>,
    var: Seq<char>,
    ind: Seq<char>,
    level: nat,
    kind: Seq<char>,
    label: Seq<char>,
    dur: Seq<char>,
    ease: Seq<char>,
    target: Seq<char>,
) -> Seq<char> {
    let ind1 = spaces(level + 1);
    let ind2 = spaces(level + 2);
    let (style, dir) = easing(ease);
    out + ind + "-- "@ + kind + ": "@ + label + " "@ + dur + "s "@ + ease + "\n"@ + ind + "do\n"@
        + ind1 + "    local TweenService = game:GetService(\"TweenService\")\n"@ + ind1
        + "    local tweenInfo = TweenInfo.new("@ + dur + ", "@ + style + ", "@ + dir + ")\n"@
        + ind1 + "    "@ + var + ".AncestryChanged:Once(function()\n"@ + ind2 + "        if "@
        + var + ".Parent then\n"@ + ind2 + "            "@ + var
        + ".BackgroundTransparency = 1\n"@ + ind2 + "            local tween = TweenService:Create("@
        + var + ", tweenInfo, "@ + target + ")\n"@ + ind2 + "            tween:Play()\n"@ + ind2
        + "        end\n"@ + ind1 + "    end)\n"@ + ind + "end\n"@
}

fn push_tween(
    out: &mut Vec<char>,
    var: &Vec<char>,
    ind: &Vec<char>,
    level: u32,
    kind: &str,
    label: &Vec<char>,
    dur: &Vec<char>,
    ease: &Vec<char>,
    target: &str,
)
    requires
        level + 2 <= u32::MAX,
    ensures
        final(out)@ == tween(old(out)@, var@, ind@, level as nat, kind@, label@, dur@, ease@, target@),
{
    let ind1 = spaces_v((level + 1) as u64);
    let ind2 = spaces_v((level + 2) as u64);
    let (style, dir) = parse_easing(ease);
    push_all(out, ind);
    push_str(out, "-- ");
    push_str(out, kind);
    push_str(out, ": ");
    push_all(out, label);
    push_str(out, " ");
    push_all(out, dur);
    push_str(out, "s ");
    push_all(out, ease);
    push_str(out, "\n");
    push_all(out, ind);
    push_str(out, "do\n");
    push_all(out, &ind1);
    push_str(out, "    local TweenService = game:GetService(\"TweenService\")\n");
    push_all(out, &ind1);
    push_str(out, "    local tweenInfo = TweenInfo.new(");
    push_all(out, dur);
    push_str(out, ", ");
    push_all(out, &style);
    push_str(out, ", ");
    push_all(out, &dir);
    push_str(out, ")\n");
    push_all(out, &ind1);
    push_str(out, "    ");
    push_all(out, var);
    push_str(out, ".AncestryChanged:Once(function()\n");
    push_all(out, &ind2);
    push_str(out, "        if ");
    push_all(out, var);
    push_str(out, ".Parent then\n");
    push_all(out, &ind2);
    push_str(out, "            ");
    push_all(out, var);
    push_str(out, ".BackgroundTransparency = 1\n");
    push_all(out, &ind2);
    push_str(out, "            local tween = TweenService:Create(");
    push_all(out, var);
    push_str(out, ", tweenInfo, ");
    push_str(out, target);
    push_str(out, ")\n");
    push_all(out, &ind2);
    push_str(out, "            tween:Play()\n");
    push_all(out, &ind2);
    push_str(out, "        end\n");
    push_all(out, &ind1);
    push_str(out, "    end)\n");
    push_all(out, ind);
    push_str(out, "end\n");
}

/// `"<duration>s"` as a literal, or the default duration.
pub open spec fn dur_lit(p: Seq<char>) -> Seq<char> {
    lit_or(strip_suffixes(p, "s"@), "0.3"@)
}

/// `[<name>] <duration> [<easing>]`, with the given default name.
pub open spec fn tween_parts(v: Seq<char>, dflt: Seq<char>) -> (Seq<char>, Seq<char>, Seq<char>) {
    let parts = words(v);
    if parts.len() == 3 {
        (parts[0], dur_lit(parts[1]), parts[2])
    } else if parts.len() == 2 {
        (dflt, dur_lit(parts[0]), parts[1])
    } else if parts.len() == 1 {
        (dflt, dur_lit(parts[0]), "ease"@)
    } else {
        (dflt, "0.3"@, "ease"@)
    }
}

fn tween_parts_v(v: &Vec<char>, dflt: &str) -> (r: (Vec<char>, Vec<char>, Vec<char>))
    ensures
        (r.0@, r.1@, r.2@) == tween_parts(v@, dflt@),
{
    let parts = words_v(v);
    let ghost pv = views(parts@);
    if parts.len() == 3 {
        assert(pv[0] == parts@[0]@ && pv[1] == parts@[1]@ && pv[2] == parts@[2]@);
        (
            crate::text::copy(&parts[0]),
            lit_or_v(&strip_suffixes_str(&parts[1], "s"), "0.3"),
            crate::text::copy(&parts[2]),
        )
    } else if parts.len() == 2 {
        assert(pv[0] == parts@[0]@ && pv[1] == parts@[1]@);
        (
            chars_of(dflt),
            lit_or_v(&strip_suffixes_str(&parts[0], "s"), "0.3"),
            crate::text::copy(&parts[1]),
        )
    } else if parts.len() == 1 {
        assert(pv[0] == parts@[0]@);
        (chars_of(dflt), lit_or_v(&strip_suffixes_str(&parts[0], "s"), "0.3"), chars_of("ease"))
    } else {
        (chars_of(dflt), chars_of("0.3"), chars_of("ease"))
    }
}

/// `emit_transition`: a tween that plays when the element is mounted.
pub open spec fn transition(out: Seq<char>, var: Seq<char>, v: Seq<char>, ind: Seq<char>, level: nat, t: STable) -> Result<Seq<char>, SHalt> {
    let (prop, d, ease) = tween_parts(v, "all"@);
    let target = if eq_ic(prop, "opacity"@) || eq_ic(prop, "all"@) {
        bt_target()
    } else if eq_ic(prop, "scale"@) {
        size_target()
    } else {
        bt_target()
    };
    if level + 2 > u32::MAX {
        Err(SHalt::Overflow)
    } else {
        match num(t, NumOp::Show, d) {
            Ok(dur) => Ok(tween(out, var, ind, level, "Transition"@, prop, dur, ease, target)),
            Err(e) => Err(e),
        }
    }
}

/// `emit_animate_on_mount`: a named animation played once on mount.
pub open spec fn animation(out: Seq<char>, var: Seq<char>, v: Seq<char>, ind: Seq<char>, level: nat, t: STable) -> Result<Seq<char>, SHalt> {
    let (name, d, ease) = tween_parts(v, "fadeIn"@);
    let l = lower(name);
    let target = if contains(l, "fade"@) || contains(l, "opacity"@) {
        bt_target()
    } else if contains(l, "scale"@) {
        size_target()
    } else {
        bt_target()
    };
    if level + 2 > u32::MAX {
        Err(SHalt::Overflow)
    } else {
        match num(t, NumOp::Show, d) {
            Ok(dur) => Ok(tween(out, var, ind, level, "Animation"@, name, dur, ease, target)),
            Err(e) => Err(e),
        }
    }
}

fn emit_transition(out: &mut Vec<char>, var: &Vec<char>, v: &Vec<char>, ind: &Vec<char>, level: u32, t: &NumTable) -> (r: Result<(), Halt>)
    ensures
        no_boundary(r),
        fresh_err(t@, r),
        match transition(old(out)@, var@, v@, ind@, level as nat, t@) {
            Ok(o) => r is Ok && final(out)@ == o,
            Err(e) => r matches Err(h) && h@ == e,
        },
{
    let (prop, d, ease) = tween_parts_v(v, "all");
    let target = if eq_ic_str(&prop, "opacity") || eq_ic_str(&prop, "all") {
        "{ BackgroundTransparency = 0 }"
    } else if eq_ic_str(&prop, "scale") {
        "{ Size = UDim2.fromScale(1, 1) }"
    } else {
        "{ BackgroundTransparency = 0 }"
    };
    if level > u32::MAX - 2 {
        return Err(Halt::Overflow);
    }
    let dur = number(t, NumOp::Show, &d)?;
    push_tween(out, var, ind, level, "Transition", &prop, &dur, &ease, target);
    Ok(())
}

fn emit_animate_on_mount(out: &mut Vec<char>, var: &Vec<char>, v: &Vec<char>, ind: &Vec<char>, level: u32, t: &NumTable) -> (r: Result<(), Halt>)
    ensures
        no_boundary(r),
        fresh_err(t@, r),
        match animation(old(out)@, var@, v@, ind@, level as nat, t@) {
            Ok(o) => r is Ok && final(out)@ == o,
            Err(e) => r matches Err(h) && h@ == e,
        },
{
    let (name, d, ease) = tween_parts_v(v, "fadeIn");
    let l = to_lowercase(&name);
    let target = if contains_str(&l, "fade") || contains_str(&l, "opacity") {
        "{ BackgroundTransparency = 0 }"
    } else if contains_str(&l, "scale") {
        "{ Size = UDim2.fromScale(1, 1) }"
    } else {
        "{ BackgroundTransparency = 0 }"
    };
    if level > u32::MAX - 2 {
        return Err(Halt::Overflow);
    }
    let dur = number(t, NumOp::Show, &d)?;
    push_tween(out, var, ind, level, "Animation", &name, &dur, &ease, target);
    Ok(())
}

} // verus!

verus! {

pub type SOut = Result<Seq<char>, SHalt>;

/// `<instance type, lower-cased>_<counter>`.
pub open spec fn var_name(it: Seq<char>, c: nat) -> Seq<char> {
    lower(it) + "_"@ + dec(c)
}

fn var_name_v(it: &String, c: u32) -> (r: Vec<char>)
    ensures
        r@ == var_name(it@, c as nat),
{
    let mut v = to_lowercase(&chars_of(it.as_str()));
    push_str(&mut v, "_");
    push_dec(&mut v, c as u64);
    v
}

/// The comment, `Instance.new`, `Parent` and `Name` lines of a node.
pub open spec fn head_lines(out: Seq<char>, n: SNode, var: Seq<char>, ind: Seq<char>, parent: Seq<char>) -> Seq<char> {
    let o = match n.source_tag {
        Some(tag) => out + ind + "-- "@ + n.itype + " from "@ + tag + "\n"@,
        None => out + ind + "-- "@ + n.itype + ": "@ + n.name + "\n"@,
    };
    o + ind + "local "@ + var + " = Instance.new("@ + lua_str(n.itype) + ")\n"@ + ind + var
        + ".Parent = "@ + parent + "\n"@ + ind + var + ".Name = "@ + lua_str(n.name) + "\n"@
}

/// `<var>.<k> = <value>`.
pub open spec fn prop_line(out: Seq<char>, ind: Seq<char>, var: Seq<char>, k: Seq<char>, v: Seq<char>, t: STable) -> SOut {
    match map_prop(k, v, t) {
        Ok(x) => Ok(out + ind + var + "."@ + k + " = "@ + x + "\n"@),
        Err(e) => Err(e),
    }
}

/// The line of property `k`, when present.
pub open spec fn key_line(out: Seq<char>, ind: Seq<char>, var: Seq<char>, p: SProps, k: Seq<char>, t: STable) -> SOut {
    match pget(p, k) {
        Some(v) => prop_line(out, ind, var, k, v, t),
        None => Ok(out),
    }
}

/// The head lines, then `Size`, `BackgroundColor3` and `BorderSizePixel`.
pub open spec fn top_lines(out: Seq<char>, n: SNode, var: Seq<char>, ind: Seq<char>, parent: Seq<char>, t: STable) -> SOut {
    match key_line(head_lines(out, n, var, ind, parent), ind, var, n.props, "Size"@, t) {
        Ok(o1) => match key_line(o1, ind, var, n.props, "BackgroundColor3"@, t) {
            Ok(o2) => key_line(o2, ind, var, n.props, "BorderSizePixel"@, t),
            Err(e) => Err(e),
        },
        Err(e) => Err(e),
    }
}

fn push_prop_line(out: &mut Vec<char>, ind: &Vec<char>, var: &Vec<char>, k: &Vec<char>, v: &Vec<char>, t: &NumTable) -> (r: Result<(), Halt>)
    ensures
        no_boundary(r),
        fresh_err(t@, r),
        match prop_line(old(out)@, ind@, var@, k@, v@, t@) {
            Ok(o) => r is Ok && final(out)@ == o,
            Err(e) => r matches Err(h) && h@ == e,
        },
{
    let x = map_prop_v(k, v, t)?;
    push_all(out, ind);
    push_all(out, var);
    push_str(out, ".");
    push_all(out, k);
    push_str(out, " = ");
    push_all(out, &x);
    push_str(out, "\n");
    Ok(())
}

fn push_key_line(out: &mut Vec<char>, ind: &Vec<char>, var: &Vec<char>, p: &PropMap, k: &str, t: &NumTable) -> (r: Result<(), Halt>)
    ensures
        no_boundary(r),
        fresh_err(t@, r),
        match key_line(old(out)@, ind@, var@, p@, k@, t@) {
            Ok(o) => r is Ok && final(out)@ == o,
            Err(e) => r matches Err(h) && h@ == e,
        },
{
    match p.get(k) {
        Some(v) => push_prop_line(out, ind, var, &chars_of(k), &v, t),
        None => Ok(()),
    }
}

fn push_top_lines(out: &mut Vec<char>, n: &LuauNode, var: &Vec<char>, ind: &Vec<char>, parent: &Vec<char>, t: &NumTable) -> (r: Result<(), Halt>)
    ensures
        no_boundary(r),
        fresh_err(t@, r),
        match top_lines(old(out)@, n@, var@, ind@, parent@, t@) {
            Ok(o) => r is Ok && final(out)@ == o,
            Err(e) => r matches Err(h) && h@ == e,
        },
{
    let it = chars_of(n.instance_type.as_str());
    let nm = chars_of(n.name.as_str());
    push_all(out, ind);
    push_str(out, "-- ");
    push_all(out, &it);
    match &n.source_tag {
        Some(tag) => {
            push_str(out, " from ");
            push_all(out, &chars_of(tag.as_str()));
        },
        None => {
            push_str(out, ": ");
            push_all(out, &nm);
        },
    }
    push_str(out, "\n");
    push_all(out, ind);
    push_str(out, "local ");
    push_all(out, var);
    push_str(out, " = Instance.new(");
    push_lua_str(out, &it);
    push_str(out, ")\n");
    push_all(out, ind);
    push_all(out, var);
    push_str(out, ".Parent = ");
    push_all(out, parent);
    push_str(out, "\n");
    push_all(out, ind);
    push_all(out, var);
    push_str(out, ".Name = ");
    push_lua_str(out, &nm);
    push_str(out, "\n");
    push_key_line(out, ind, var, &n.properties, "Size", t)?;
    push_key_line(out, ind, var, &n.properties, "BackgroundColor3", t)?;
    push_key_line(out, ind, var, &n.properties, "BorderSizePixel", t)?;
    Ok(())
}

/// A helper's properties from position `i` on; keys with `-` are skipped.
pub open spec fn hprops(out: Seq<char>, p: SProps, i: int, ind: Seq<char>, hvar: Seq<char>, t: STable) -> SOut
    decreases p.len() - i,
{
    if i < 0 || i >= p.len() {
        Ok(out)
    } else if contains(p[i].0, "-"@) {
        hprops(out, p, i + 1, ind, hvar, t)
    } else {
        match prop_line(out, ind, hvar, p[i].0, p[i].1, t) {
            Ok(o) => hprops(o, p, i + 1, ind, hvar, t),
            Err(e) => Err(e),
        }
    }
}

fn push_hprops(out: &mut Vec<char>, p: &PropMap, ind: &Vec<char>, hvar: &Vec<char>, t: &NumTable) -> (r: Result<(), Halt>)
    ensures
        no_boundary(r),
        fresh_err(t@, r),
        match hprops(old(out)@, p@, 0, ind@, hvar@, t@) {
            Ok(o) => r is Ok && final(out)@ == o,
            Err(e) => r matches Err(h) && h@ == e,
        },
{
    let mut i: usize = 0;
    while i < p.len()
        invariant
            i <= p@.len(),
            hprops(old(out)@, p@, 0, ind@, hvar@, t@) == hprops(out@, p@, i as int, ind@, hvar@, t@),
        decreases p@.len() - i,
    {
        let (k, v) = p.entry(i);
        if !contains_str(&k, "-") {
            push_prop_line(out, ind, hvar, &k, &v, t)?;
        }
        i = i + 1;
    }
    Ok(())
}

/// The helper objects from position `i` on, each with its own variable.
pub open spec fn helpers_out(out: Seq<char>, hs: Seq<SNode>, i: int, var: Seq<char>, ind: Seq<char>, c: nat, t: STable) -> Result<(Seq<char>, nat), SHalt>
    decreases hs.len() - i,
{
    if i < 0 || i >= hs.len() {
        Ok((out, c))
    } else if c + 1 > u32::MAX {
        Err(SHalt::Overflow)
    } else {
        let c1 = (c + 1) as nat;
        let h = hs[i];
        let hvar = var_name(h.itype, c1);
        let o = out + ind + "-- "@ + comment_for(h.itype) + "\n"@ + ind + "local "@ + hvar
            + " = Instance.new("@ + lua_str(h.itype) + ")\n"@ + ind + hvar + ".Parent = "@ + var
            + "\n"@;
        match hprops(o, h.props, 0, ind, hvar, t) {
            Ok(o2) => helpers_out(o2, hs, i + 1, var, ind, c1, t),
            Err(e) => Err(e),
        }
    }
}

fn push_helpers(out: &mut Vec<char>, n: &LuauNode, var: &Vec<char>, ind: &Vec<char>, c0: u32, t: &NumTable) -> (r: Result<u32, Halt>)
    ensures
        no_boundary(r),
        fresh_err(t@, r),
        match helpers_out(old(out)@, n@.helpers, 0, var@, ind@, c0 as nat, t@) {
            Ok((o, c2)) => r matches Ok(x) && x == c2 && final(out)@ == o,
            Err(e) => r matches Err(h) && h@ == e,
        },
{
    let mut i: usize = 0;
    let mut c = c0;
    proof {
        lemma_nviews(n.helpers@);
    }
    while i < n.helpers.len()
        invariant
            i <= n.helpers@.len(),
            n@.helpers.len() == n.helpers@.len(),
            forall|j: int| 0 <= j < n.helpers@.len() ==> #[trigger] n@.helpers[j] == nview(n.helpers@[j]),
            helpers_out(old(out)@, n@.helpers, 0, var@, ind@, c0 as nat, t@) == helpers_out(
                out@,
                n@.helpers,
                i as int,
                var@,
                ind@,
                c as nat,
                t@,
            ),
        decreases n.helpers@.len() - i,
    {
        if c == u32::MAX {
            return Err(Halt::Overflow);
        }
        c = c + 1;
        let h = &n.helpers[i];
        assert(n@.helpers[i as int] == nview(*h));
        let hvar = var_name_v(&h.instance_type, c);
        let hit = chars_of(h.instance_type.as_str());
        push_all(out, ind);
        push_str(out, "-- ");
        push_all(out, &helper_comment(&hit));
        push_str(out, "\n");
        push_all(out, ind);
        push_str(out, "local ");
        push_all(out, &hvar);
        push_str(out, " = Instance.new(");
        push_lua_str(out, &hit);
        push_str(out, ")\n");
        push_all(out, ind);
        push_all(out, &hvar);
        push_str(out, ".Parent = ");
        push_all(out, var);
        push_str(out, "\n");
        push_hprops(out, &h.properties, ind, &hvar, t)?;
        i = i + 1;
    }
    Ok(c)
}

/// Keys that are not emitted as plain properties.
pub open spec fn skip_key(k: Seq<char>) -> bool {
    k == "class"@ || starts_with(k, "data-"@) || contains(k, "-"@) || eq_ic(k, "JustifyContent"@)
        || eq_ic(k, "AlignItems"@) || eq_ic(k, "FlexGrow"@) || eq_ic(k, "Size"@) || eq_ic(
        k,
        "BackgroundColor3"@,
    ) || eq_ic(k, "BorderSizePixel"@)
}

fn skip_key_v(k: &Vec<char>) -> (r: bool)
    ensures
        r == skip_key(k@),
{
    same_str(k, "class") || starts_with_str(k, "data-") || contains_str(k, "-") || eq_ic_str(
        k,
        "JustifyContent",
    ) || eq_ic_str(k, "AlignItems") || eq_ic_str(k, "FlexGrow") || eq_ic_str(k, "Size")
        || eq_ic_str(k, "BackgroundColor3") || eq_ic_str(k, "BorderSizePixel")
}

/// The node's remaining properties from position `i` on.
pub open spec fn nprops(out: Seq<char>, p: SProps, i: int, ind: Seq<char>, var: Seq<char>, t: STable) -> SOut
    decreases p.len() - i,
{
    if i < 0 || i >= p.len() {
        Ok(out)
    } else if skip_key(p[i].0) {
        nprops(out, p, i + 1, ind, var, t)
    } else {
        match prop_line(out, ind, var, p[i].0, p[i].1, t) {
            Ok(o) => nprops(o, p, i + 1, ind, var, t),
            Err(e) => Err(e),
        }
    }
}

fn push_nprops(out: &mut Vec<char>, p: &PropMap, ind: &Vec<char>, var: &Vec<char>, t: &NumTable) -> (r: Result<(), Halt>)
    ensures
        no_boundary(r),
        fresh_err(t@, r),
        match nprops(old(out)@, p@, 0, ind@, var@, t@) {
            Ok(o) => r is Ok && final(out)@ == o,
            Err(e) => r matches Err(h) && h@ == e,
        },
{
    let mut i: usize = 0;
    while i < p.len()
        invariant
            i <= p@.len(),
            nprops(old(out)@, p@, 0, ind@, var@, t@) == nprops(out@, p@, i as int, ind@, var@, t@),
        decreases p@.len() - i,
    {
        let (k, v) = p.entry(i);
        if !skip_key_v(&k) {
            push_prop_line(out, ind, var, &k, &v, t)?;
        }
        i = i + 1;
    }
    Ok(())
}

/// The click handler wired to `Controller[<data-onclick>]`.
pub open spec fn click(out: Seq<char>, p: SProps, ind: Seq<char>, level: nat, var: Seq<char>) -> SOut {
    match pget(p, "data-onclick"@) {
        Some(h) => if level + 1 > u32::MAX {
            Err(SHalt::Overflow)
        } else {
            let ind1 = spaces(level + 1);
            Ok(
                out + ind + "-- Click handler: Controller."@ + h + "()\n"@ + ind + var
                    + ".Activated:Connect(function()\n"@ + ind1 + "    if Controller["@ + lua_str(h)
                    + "] then\n"@ + ind1 + "        Controller["@ + lua_str(h) + "]()\n"@ + ind1
                    + "    end\n"@ + ind + "end)\n"@,
            )
        },
        None => Ok(out),
    }
}

fn push_click(out: &mut Vec<char>, p: &PropMap, ind: &Vec<char>, level: u32, var: &Vec<char>) -> (r: Result<(), Halt>)
    ensures
        no_boundary(r),
        r matches Err(h) ==> !(h@ is Need),
        match click(old(out)@, p@, ind@, level as nat, var@) {
            Ok(o) => r is Ok && final(out)@ == o,
            Err(e) => r matches Err(h) && h@ == e,
        },
{
    match p.get("data-onclick") {
        Some(h) => {
            if level == u32::MAX {
                return Err(Halt::Overflow);
            }
            let ind1 = spaces_v((level + 1) as u64);
            push_all(out, ind);
            push_str(out, "-- Click handler: Controller.");
            push_all(out, &h);
            push_str(out, "()\n");
            push_all(out, ind);
            push_all(out, var);
            push_str(out, ".Activated:Connect(function()\n");
            push_all(out, &ind1);
            push_str(out, "    if Controller[");
            push_lua_str(out, &h);
            push_str(out, "] then\n");
            push_all(out, &ind1);
            push_str(out, "        Controller[");
            push_lua_str(out, &h);
            push_str(out, "]()\n");
            push_all(out, &ind1);
            push_str(out, "    end\n");
            push_all(out, ind);
            push_str(out, "end)\n");
            Ok(())
        },
        None => Ok(()),
    }
}

/// Transitions and animations, from the HTML attributes and from CSS.
pub open spec fn tweens(out: Seq<char>, p: SProps, var: Seq<char>, ind: Seq<char>, level: nat, t: STable) -> SOut {
    match (match pget(p, "data-transition"@) {
        Some(v) => transition(out, var, v, ind, level, t),
        None => Ok(out),
    }) {
        Ok(o1) => match (match pget(p, "Transition"@) {
            Some(v) => transition(o1, var, v, ind, level, t),
            None => Ok(o1),
        }) {
            Ok(o2) => match (match pget(p, "data-animate"@) {
                Some(v) => animation(o2, var, v, ind, level, t),
                None => Ok(o2),
            }) {
                Ok(o3) => match pget(p, "Animation"@) {
                    Some(v) => animation(o3, var, v, ind, level, t),
                    None => Ok(o3),
                },
                Err(e) => Err(e),
            },
            Err(e) => Err(e),
        },
        Err(e) => Err(e),
    }
}

fn push_tweens(out: &mut Vec<char>, p: &PropMap, var: &Vec<char>, ind: &Vec<char>, level: u32, t: &NumTable) -> (r: Result<(), Halt>)
    ensures
        no_boundary(r),
        fresh_err(t@, r),
        match tweens(old(out)@, p@, var@, ind@, level as nat, t@) {
            Ok(o) => r is Ok && final(out)@ == o,
            Err(e) => r matches Err(h) && h@ == e,
        },
{
    if let Some(v) = p.get("data-transition") {
        emit_transition(out, var, &v, ind, level, t)?;
    }
    if let Some(v) = p.get("Transition") {
        emit_transition(out, var, &v, ind, level, t)?;
    }
    if let Some(v) = p.get("data-animate") {
        emit_animate_on_mount(out, var, &v, ind, level, t)?;
    }
    if let Some(v) = p.get("Animation") {
        emit_animate_on_mount(out, var, &v, ind, level, t)?;
    }
    Ok(())
}

} // verus!

verus! {

/// `emit_node`: one node and, recursively, its children, after `out`;
/// `c` is the last variable number used.
pub open spec fn emit(out: Seq<char>, n: SNode, parent: Seq<char>, c: nat, level: nat, t: STable) -> Result<(Seq<char>, nat), SHalt>
    decreases n,
{
    if c + 1 > u32::MAX {
        Err(SHalt::Overflow)
    } else {
        let c1 = (c + 1) as nat;
        let var = var_name(n.itype, c1);
        let ind = spaces(level);
        match top_lines(out, n, var, ind, parent, t) {
            Ok(o1) => match helpers_out(o1, n.helpers, 0, var, ind, c1, t) {
                Ok((o2, c2)) => match nprops(o2, n.props, 0, ind, var, t) {
                    Ok(o3) => match click(o3, n.props, ind, level, var) {
                        Ok(o4) => match tweens(o4, n.props, var, ind, level, t) {
                            Ok(o5) => emit_kids(o5, n.children, var, c2, level, t),
                            Err(e) => Err(e),
                        },
                        Err(e) => Err(e),
                    },
                    Err(e) => Err(e),
                },
                Err(e) => Err(e),
            },
            Err(e) => Err(e),
        }
    }
}

/// The children, one level deeper, in order.
pub open spec fn emit_kids(out: Seq<char>, kids: Seq<SNode>, parent: Seq<char>, c: nat, level: nat, t: STable) -> Result<(Seq<char>, nat), SHalt>
    decreases kids,
{
    if kids.len() == 0 {
        Ok((out, c))
    } else if level + 1 > u32::MAX {
        Err(SHalt::Overflow)
    } else {
        match emit(out, kids[0], parent, c, (level + 1) as nat, t) {
            Ok((o, c1)) => emit_kids(o, kids.drop_first(), parent, c1, level, t),
            Err(e) => Err(e),
        }
    }
}

fn emit_node(out: &mut Vec<char>, node: &LuauNode, parent: &Vec<char>, c: u32, level: u32, t: &NumTable) -> (r: Result<u32, Halt>)
    ensures
        no_boundary(r),
        fresh_err(t@, r),
        match emit(old(out)@, node@, parent@, c as nat, level as nat, t@) {
            Ok((o, c2)) => r matches Ok(x) && x == c2 && final(out)@ == o,
            Err(e) => r matches Err(h) && h@ == e,
        },
    decreases node@,
{
    if c == u32::MAX {
        return Err(Halt::Overflow);
    }
    let c1 = c + 1;
    let var = var_name_v(&node.instance_type, c1);
    let ind = spaces_v(level as u64);
    push_top_lines(out, node, &var, &ind, parent, t)?;
    let mut c2 = push_helpers(out, node, &var, &ind, c1, t)?;
    push_nprops(out, &node.properties, &ind, &var, t)?;
    push_click(out, &node.properties, &ind, level, &var)?;
    push_tweens(out, &node.properties, &var, &ind, level, t)?;
    let ghost kids = node@.children;
    proof {
        lemma_nviews(node.children@);
        assert(kids.skip(0) =~= kids);
    }
    let mut i: usize = 0;
    while i < node.children.len()
        invariant
            i <= node.children@.len(),
            kids == node@.children,
            kids.len() == node.children@.len(),
            forall|j: int| 0 <= j < node.children@.len() ==> #[trigger] kids[j] == nview(node.children@[j]),
            emit(old(out)@, node@, parent@, c as nat, level as nat, t@) == emit_kids(
                out@,
                kids.skip(i as int),
                var@,
                c2 as nat,
                level as nat,
                t@,
            ),
        decreases node.children@.len() - i,
    {
        let ghost rest = kids.skip(i as int);
        assert(rest[0] == kids[i as int]);
        assert(rest.drop_first() =~= kids.skip(i + 1));
        if level == u32::MAX {
            return Err(Halt::Overflow);
        }
        let child = &node.children[i];
        assert(kids[i as int] == nview(*child));
        c2 = emit_node(out, child, &var, c2, level + 1, t)?;
        i = i + 1;
    }
    proof {
        assert(kids.skip(i as int) =~= Seq::<SNode>::empty());
    }
    Ok(c2)
}

} // verus!

verus! {

/// `hs` appended to `acc`, skipping those already present.
pub open spec fn add_new(acc: Seq<Seq<char>>, hs: Seq<Seq<char>>) -> Seq<Seq<char>>
    decreases hs.len(),
{
    if hs.len() == 0 {
        acc
    } else {
        let a = if acc.contains(hs[0]) {
            acc
        } else {
            acc.push(hs[0])
        };
        add_new(a, hs.drop_first())
    }
}

/// `collect_handlers`: the `data-onclick` handler names of the tree, in
/// pre-order, each once.
pub open spec fn handlers(n: SNode) -> Seq<Seq<char>>
    decreases n,
{
    let own = match pget(n.props, "data-onclick"@) {
        Some(h) => seq![h],
        None => Seq::empty(),
    };
    handlers_kids(own, n.children)
}

pub open spec fn handlers_kids(acc: Seq<Seq<char>>, kids: Seq<SNode>) -> Seq<Seq<char>>
    decreases kids,
{
    if kids.len() == 0 {
        acc
    } else {
        handlers_kids(add_new(acc, handlers(kids[0])), kids.drop_first())
    }
}

fn has_name(acc: &Vec<Vec<char>>, x: &Vec<char>) -> (r: bool)
    ensures
        r == views(acc@).contains(x@),
{
    let mut i: usize = 0;
    while i < acc.len()
        invariant
            i <= acc.len(),
            forall|j: int| 0 <= j < i ==> acc@[j]@ != x@,
        decreases acc.len() - i,
    {
        if same(&acc[i], x) {
            assert(views(acc@)[i as int] == x@);
            return true;
        }
        i = i + 1;
    }
    assert forall|j: int| 0 <= j < views(acc@).len() implies views(acc@)[j] != x@ by {
        assert(views(acc@)[j] == acc@[j]@);
    }
    false
}

fn add_new_v(acc: &mut Vec<Vec<char>>, hs: Vec<Vec<char>>)
    ensures
        views(final(acc)@) == add_new(views(old(acc)@), views(hs@)),
{
    let mut i: usize = 0;
    proof {
        assert(views(hs@).skip(0) =~= views(hs@));
    }
    while i < hs.len()
        invariant
            i <= hs.len(),
            add_new(views(old(acc)@), views(hs@)) == add_new(views(acc@), views(hs@).skip(i as int)),
        decreases hs.len() - i,
    {
        let ghost rest = views(hs@).skip(i as int);
        assert(rest[0] == hs@[i as int]@);
        assert(rest.drop_first() =~= views(hs@).skip(i + 1));
        if !has_name(acc, &hs[i]) {
            let ghost before = acc@;
            acc.push(crate::text::copy(&hs[i]));
            assert(views(acc@) =~= views(before).push(hs@[i as int]@));
        }
        i = i + 1;
    }
    assert(views(hs@).skip(i as int) =~= Seq::<Seq<char>>::empty());
}

fn handlers_v(node: &LuauNode) -> (r: Vec<Vec<char>>)
    ensures
        views(r@) == handlers(node@),
    decreases node@,
{
    let mut acc: Vec<Vec<char>> = Vec::new();
    if let Some(h) = node.properties.get("data-onclick") {
        acc.push(h);
    }
    let ghost kids = node@.children;
    proof {
        lemma_nviews(node.children@);
        assert(kids.skip(0) =~= kids);
        assert(views(acc@) =~= match pget(node@.props, "data-onclick"@) {
            Some(h) => seq![h],
            None => Seq::<Seq<char>>::empty(),
        });
    }
    let mut i: usize = 0;
    while i < node.children.len()
        invariant
            i <= node.children@.len(),
            kids == node@.children,
            kids.len() == node.children@.len(),
            forall|j: int| 0 <= j < node.children@.len() ==> #[trigger] kids[j] == nview(node.children@[j]),
            handlers(node@) == handlers_kids(views(acc@), kids.skip(i as int)),
        decreases node.children@.len() - i,
    {
        let ghost rest = kids.skip(i as int);
        assert(rest[0] == kids[i as int]);
        assert(rest.drop_first() =~= kids.skip(i + 1));
        let child = &node.children[i];
        assert(kids[i as int] == nview(*child));
        let hs = handlers_v(child);
        add_new_v(&mut acc, hs);
        i = i + 1;
    }
    assert(kids.skip(i as int) =~= Seq::<SNode>::empty());
    acc
}

/// Recursively collects the `data-onclick` handler names of the tree, each once.
pub fn collect_handlers(node: &LuauNode) -> (r: Vec<String>)
    ensures
        r@.map_values(|s: String| s@) == handlers(node@),
{
    let hs = handlers_v(node);
    let mut out: Vec<String> = Vec::new();
    let mut i: usize = 0;
    while i < hs.len()
        invariant
            i <= hs.len(),
            out@.map_values(|s: String| s@) == views(hs@).take(i as int),
        decreases hs.len() - i,
    {
        let ghost before = out@;
        let st = to_string(&hs[i]);
        out.push(st);
        assert(out@ == before.push(st));
        assert(out@.map_values(|s: String| s@) =~= before.map_values(|s: String| s@).push(st@));
        assert(views(hs@).take(i + 1) =~= views(hs@).take(i as int).push(hs@[i as int]@));
        i = i + 1;
    }
    assert(views(hs@).take(i as int) =~= views(hs@));
    out
}

pub open spec fn header_text() -> Seq<char> {
    "-- ==========================================================\n-- Auto-generated Luau UI code\n-- Generated by hluau (HTML/CSS to Luau transpiler)\n-- Do not edit manually — regenerate from source HTML/CSS.\n-- ==========================================================\n\n"@
}

pub open spec fn services_text() -> Seq<char> {
    "-- === Services ===\nlocal Players = game:GetService(\"Players\")\nlocal player = Players.LocalPlayer\nlocal playerGui = player:WaitForChild(\"PlayerGui\")\n\n-- === Controller ===\n-- Define your button/event handlers here.\nController = {}\n"@
}

pub open spec fn stub_body() -> Seq<char> {
    "()\n    -- TODO: add your logic\nend\n\n"@
}

pub open spec fn root_text() -> Seq<char> {
    "-- === Root ScreenGui ===\nlocal root = Instance.new(\"ScreenGui\")\nroot.Name = \"UI\"\nroot.ResetOnSpawn = false\nroot.IgnoreGuiInset = false\n"@
}

/// The UIScale block that scales the UI with the screen width.
pub open spec fn viewport_text() -> Seq<char> {
    "\n-- ============================================================\n-- Viewport Scaling\n-- Scales the entire UI proportionally based on screen resolution.\n-- Design base: 1920px wide. The UI will scale to fit any screen.\n-- ============================================================\ndo\n    local uiScale = Instance.new(\"UIScale\")\n    uiScale.Name = \"ViewportScale\"\n    uiScale.Parent = root\n\n    local camera = workspace.CurrentCamera\n    local BASE_WIDTH = 1920 -- design resolution width in pixels\n\n    local function updateScale()\n        local viewportSize = camera.ViewportSize\n        if viewportSize.X > 0 then\n            uiScale.Scale = viewportSize.X / BASE_WIDTH\n        end\n    end\n\n    -- Update scale on startup and whenever the viewport resizes\n    updateScale()\n    camera:GetPropertyChangedSignal(\"ViewportSize\"):Connect(updateScale)\nend\n"@
}

/// `emit_viewport_scaling`: appends the UIScale block.
fn emit_viewport_scaling(out: &mut Vec<char>)
    ensures
        final(out)@ == old(out)@ + viewport_text(),
{
    push_str(out, "\n-- ============================================================\n-- Viewport Scaling\n-- Scales the entire UI proportionally based on screen resolution.\n-- Design base: 1920px wide. The UI will scale to fit any screen.\n-- ============================================================\ndo\n    local uiScale = Instance.new(\"UIScale\")\n    uiScale.Name = \"ViewportScale\"\n    uiScale.Parent = root\n\n    local camera = workspace.CurrentCamera\n    local BASE_WIDTH = 1920 -- design resolution width in pixels\n\n    local function updateScale()\n        local viewportSize = camera.ViewportSize\n        if viewportSize.X > 0 then\n            uiScale.Scale = viewportSize.X / BASE_WIDTH\n        end\n    end\n\n    -- Update scale on startup and whenever the viewport resizes\n    updateScale()\n    camera:GetPropertyChangedSignal(\"ViewportSize\"):Connect(updateScale)\nend\n");
}

/// One `Controller.<name>` stub per handler.
pub open spec fn stubs(out: Seq<char>, hs: Seq<Seq<char>>) -> Seq<char>
    decreases hs.len(),
{
    if hs.len() == 0 {
        out
    } else {
        stubs(out + "function Controller."@ + hs[0] + stub_body(), hs.drop_first())
    }
}

/// `generate_internal`: the whole Luau file for the tree.
pub open spec fn gen(root: SNode, standalone: bool, t: STable) -> Result<Seq<char>, SHalt> {
    let o1 = header_text();
    let o2 = if standalone {
        stubs(o1 + services_text(), handlers(root))
    } else {
        o1
    };
    let o3 = o2 + root_text() + viewport_text() + "\n-- === UI Tree ===\n"@;
    match emit(o3, root, "root"@, 0, 0, t) {
        Ok((o4, _)) => Ok(
            o4 + if standalone {
                "\n-- === Mount to PlayerGui ===\nroot.Parent = playerGui\n"@
            } else {
                "\nreturn root\n"@
            },
        ),
        Err(e) => Err(e),
    }
}

fn generate_internal(root: &LuauNode, standalone: bool, t: &NumTable) -> (r: Result<String, Halt>)
    ensures
        no_boundary(r),
        fresh_err(t@, r),
        resv(r) == gen(root@, standalone, t@),
{
    let mut out: Vec<char> = Vec::new();
    push_str(&mut out, "-- ==========================================================\n-- Auto-generated Luau UI code\n-- Generated by hluau (HTML/CSS to Luau transpiler)\n-- Do not edit manually — regenerate from source HTML/CSS.\n-- ==========================================================\n\n");
    assert(out@ =~= header_text());
    if standalone {
        push_str(&mut out, "-- === Services ===\nlocal Players = game:GetService(\"Players\")\nlocal player = Players.LocalPlayer\nlocal playerGui = player:WaitForChild(\"PlayerGui\")\n\n-- === Controller ===\n-- Define your button/event handlers here.\nController = {}\n");
        let hs = handlers_v(root);
        let mut i: usize = 0;
        proof {
            assert(views(hs@).skip(0) =~= views(hs@));
        }
        while i < hs.len()
            invariant
                i <= hs.len(),
                stubs(header_text() + services_text(), views(hs@)) == stubs(out@, views(hs@).skip(i as int)),
            decreases hs.len() - i,
        {
            let ghost rest = views(hs@).skip(i as int);
            assert(rest[0] == hs@[i as int]@);
            assert(rest.drop_first() =~= views(hs@).skip(i + 1));
            push_str(&mut out, "function Controller.");
            push_all(&mut out, &hs[i]);
            push_str(&mut out, "()\n    -- TODO: add your logic\nend\n\n");
            i = i + 1;
        }
        assert(views(hs@).skip(i as int) =~= Seq::<Seq<char>>::empty());
    }
    push_str(&mut out, "-- === Root ScreenGui ===\nlocal root = Instance.new(\"ScreenGui\")\nroot.Name = \"UI\"\nroot.ResetOnSpawn = false\nroot.IgnoreGuiInset = false\n");
    emit_viewport_scaling(&mut out);
    push_str(&mut out, "\n-- === UI Tree ===\n");
    let _c = emit_node(&mut out, root, &chars_of("root"), 0, 0, t)?;
    if standalone {
        push_str(&mut out, "\n-- === Mount to PlayerGui ===\nroot.Parent = playerGui\n");
    } else {
        push_str(&mut out, "\nreturn root\n");
    }
    Ok(to_string(&out))
}

/// Generates Luau code that returns the root ScreenGui (module style).
pub fn generate(root: &LuauNode, t: &NumTable) -> (r: Result<String, Halt>)
    ensures
        no_boundary(r),
        fresh_err(t@, r),
        resv(r) == gen(root@, false, t@),
{
    generate_internal(root, false, t)
}

/// Generates a standalone Luau script with service imports and Controller stubs.
pub fn generate_standalone(root: &LuauNode, t: &NumTable) -> (r: Result<String, Halt>)
    ensures
        no_boundary(r),
        fresh_err(t@, r),
        resv(r) == gen(root@, true, t@),
{
    generate_internal(root, true, t)
}


/// `a` in front of the text of a result.
pub open spec fn pre(a: Seq<char>, r: SOut) -> SOut {
    match r {
        Ok(x) => Ok(a + x),
        Err(e) => Err(e),
    }
}

/// `a` in front of the text of a result that carries a counter.
pub open spec fn pre_c(a: Seq<char>, r: Result<(Seq<char>, nat), SHalt>) -> Result<(Seq<char>, nat), SHalt> {
    match r {
        Ok((x, c)) => Ok((a + x, c)),
        Err(e) => Err(e),
    }
}

/// Appending a piece keeps a prefix in front.
proof fn lemma_after(a: Seq<char>, u: Seq<char>, v: Seq<char>, x: Seq<char>)
    requires
        u == a + v,
    ensures
        u + x == a + (v + x),
{
    assert(u + x =~= a + (v + x));
}

proof fn lemma_head_prefix(a: Seq<char>, b: Seq<char>, n: SNode, var: Seq<char>, ind: Seq<char>, parent: Seq<char>)
    ensures
        head_lines(a + b, n, var, ind, parent) == a + head_lines(b, n, var, ind, parent),
{
    let (sep, who) = match n.source_tag {
        Some(tag) => (" from "@, tag),
        None => (": "@, n.name),
    };
    let li = lua_str(n.itype);
    let ln = lua_str(n.name);
    let u0 = a + b;
    let mut u = u0;
    let mut v = b;
    lemma_after(a, u, v, ind);
    u = u + ind;
    v = v + ind;
    lemma_after(a, u, v, "-- "@);
    u = u + "-- "@;
    v = v + "-- "@;
    lemma_after(a, u, v, n.itype);
    u = u + n.itype;
    v = v + n.itype;
    lemma_after(a, u, v, sep);
    u = u + sep;
    v = v + sep;
    lemma_after(a, u, v, who);
    u = u + who;
    v = v + who;
    lemma_after(a, u, v, "\n"@);
    u = u + "\n"@;
    v = v + "\n"@;
    lemma_after(a, u, v, ind);
    u = u + ind;
    v = v + ind;
    lemma_after(a, u, v, "local "@);
    u = u + "local "@;
    v = v + "local "@;
    lemma_after(a, u, v, var);
    u = u + var;
    v = v + var;
    lemma_after(a, u, v, " = Instance.new("@);
    u = u + " = Instance.new("@;
    v = v + " = Instance.new("@;
    lemma_after(a, u, v, li);
    u = u + li;
    v = v + li;
    lemma_after(a, u, v, ")\n"@);
    u = u + ")\n"@;
    v = v + ")\n"@;
    lemma_after(a, u, v, ind);
    u = u + ind;
    v = v + ind;
    lemma_after(a, u, v, var);
    u = u + var;
    v = v + var;
    lemma_after(a, u, v, ".Parent = "@);
    u = u + ".Parent = "@;
    v = v + ".Parent = "@;
    lemma_after(a, u, v, parent);
    u = u + parent;
    v = v + parent;
    lemma_after(a, u, v, "\n"@);
    u = u + "\n"@;
    v = v + "\n"@;
    lemma_after(a, u, v, ind);
    u = u + ind;
    v = v + ind;
    lemma_after(a, u, v, var);
    u = u + var;
    v = v + var;
    lemma_after(a, u, v, ".Name = "@);
    u = u + ".Name = "@;
    v = v + ".Name = "@;
    lemma_after(a, u, v, ln);
    u = u + ln;
    v = v + ln;
    lemma_after(a, u, v, "\n"@);
    u = u + "\n"@;
    v = v + "\n"@;
    assert(head_lines(a + b, n, var, ind, parent) == u);
    assert(head_lines(b, n, var, ind, parent) == v);
}

proof fn lemma_prop_line_prefix(a: Seq<char>, b: Seq<char>, ind: Seq<char>, var: Seq<char>, k: Seq<char>, v: Seq<char>, t: STable)
    ensures
        prop_line(a + b, ind, var, k, v, t) == pre(a, prop_line(b, ind, var, k, v, t)),
{
    if let Ok(x) = map_prop(k, v, t) {
        assert(a + b + ind + var + "."@ + k + " = "@ + x + "\n"@ =~= a + (b + ind + var + "."@ + k
            + " = "@ + x + "\n"@));
    }
}

proof fn lemma_key_line_prefix(a: Seq<char>, b: Seq<char>, ind: Seq<char>, var: Seq<char>, p: SProps, k: Seq<char>, t: STable)
    ensures
        key_line(a + b, ind, var, p, k, t) == pre(a, key_line(b, ind, var, p, k, t)),
{
    if let Some(v) = pget(p, k) {
        lemma_prop_line_prefix(a, b, ind, var, k, v, t);
    }
}

proof fn lemma_top_prefix(a: Seq<char>, b: Seq<char>, n: SNode, var: Seq<char>, ind: Seq<char>, parent: Seq<char>, t: STable)
    ensures
        top_lines(a + b, n, var, ind, parent, t) == pre(a, top_lines(b, n, var, ind, parent, t)),
{
    let h = head_lines(b, n, var, ind, parent);
    lemma_head_prefix(a, b, n, var, ind, parent);
    lemma_key_line_prefix(a, h, ind, var, n.props, "Size"@, t);
    if let Ok(o1) = key_line(h, ind, var, n.props, "Size"@, t) {
        lemma_key_line_prefix(a, o1, ind, var, n.props, "BackgroundColor3"@, t);
        if let Ok(o2) = key_line(o1, ind, var, n.props, "BackgroundColor3"@, t) {
            lemma_key_line_prefix(a, o2, ind, var, n.props, "BorderSizePixel"@, t);
        }
    }
}

proof fn lemma_hprops_prefix(a: Seq<char>, b: Seq<char>, p: SProps, i: int, ind: Seq<char>, hvar: Seq<char>, t: STable)
    ensures
        hprops(a + b, p, i, ind, hvar, t) == pre(a, hprops(b, p, i, ind, hvar, t)),
    decreases p.len() - i,
{
    if 0 <= i < p.len() {
        if contains(p[i].0, "-"@) {
            lemma_hprops_prefix(a, b, p, i + 1, ind, hvar, t);
        } else {
            lemma_prop_line_prefix(a, b, ind, hvar, p[i].0, p[i].1, t);
            if let Ok(o) = prop_line(b, ind, hvar, p[i].0, p[i].1, t) {
                lemma_hprops_prefix(a, o, p, i + 1, ind, hvar, t);
            }
        }
    }
}

proof fn lemma_nprops_prefix(a: Seq<char>, b: Seq<char>, p: SProps, i: int, ind: Seq<char>, var: Seq<char>, t: STable)
    ensures
        nprops(a + b, p, i, ind, var, t) == pre(a, nprops(b, p, i, ind, var, t)),
    decreases p.len() - i,
{
    if 0 <= i < p.len() {
        if skip_key(p[i].0) {
            lemma_nprops_prefix(a, b, p, i + 1, ind, var, t);
        } else {
            lemma_prop_line_prefix(a, b, ind, var, p[i].0, p[i].1, t);
            if let Ok(o) = prop_line(b, ind, var, p[i].0, p[i].1, t) {
                lemma_nprops_prefix(a, o, p, i + 1, ind, var, t);
            }
        }
    }
}

proof fn lemma_click_prefix(a: Seq<char>, b: Seq<char>, p: SProps, ind: Seq<char>, level: nat, var: Seq<char>)
    ensures
        click(a + b, p, ind, level, var) == pre(a, click(b, p, ind, level, var)),
{
    if let Some(h) = pget(p, "data-onclick"@) {
        if level + 1 <= u32::MAX {
            let ind1 = spaces(level + 1);
            let mut u = a + b;
            let mut v = b;
            lemma_after(a, u, v, ind);
            u = u + ind;
            v = v + ind;
            lemma_after(a, u, v, "-- Click handler: Controller."@);
            u = u + "-- Click handler: Controller."@;
            v = v + "-- Click handler: Controller."@;
            lemma_after(a, u, v, h);
            u = u + h;
            v = v + h;
            lemma_after(a, u, v, "()\n"@);
            u = u + "()\n"@;
            v = v + "()\n"@;
            lemma_after(a, u, v, ind);
            u = u + ind;
            v = v + ind;
            lemma_after(a, u, v, var);
            u = u + var;
            v = v + var;
            lemma_after(a, u, v, ".Activated:Connect(function()\n"@);
            u = u + ".Activated:Connect(function()\n"@;
            v = v + ".Activated:Connect(function()\n"@;
            lemma_after(a, u, v, ind1);
            u = u + ind1;
            v = v + ind1;
            lemma_after(a, u, v, "    if Controller["@);
            u = u + "    if Controller["@;
            v = v + "    if Controller["@;
            lemma_after(a, u, v, lua_str(h));
            u = u + lua_str(h);
            v = v + lua_str(h);
            lemma_after(a, u, v, "] then\n"@);
            u = u + "] then\n"@;
            v = v + "] then\n"@;
            lemma_after(a, u, v, ind1);
            u = u + ind1;
            v = v + ind1;
            lemma_after(a, u, v, "        Controller["@);
            u = u + "        Controller["@;
            v = v + "        Controller["@;
            lemma_after(a, u, v, lua_str(h));
            u = u + lua_str(h);
            v = v + lua_str(h);
            lemma_after(a, u, v, "]()\n"@);
            u = u + "]()\n"@;
            v = v + "]()\n"@;
            lemma_after(a, u, v, ind1);
            u = u + ind1;
            v = v + ind1;
            lemma_after(a, u, v, "    end\n"@);
            u = u + "    end\n"@;
            v = v + "    end\n"@;
            lemma_after(a, u, v, ind);
            u = u + ind;
            v = v + ind;
            lemma_after(a, u, v, "end)\n"@);
            u = u + "end)\n"@;
            v = v + "end)\n"@;
        }
    }
}

/// The text of a tween block after any prefix, with every piece a plain value.
proof fn lemma_tween_text(
    a: Seq<char>,
    b: Seq<char>,
    var: Seq<char>,
    ind: Seq<char>,
    ind1: Seq<char>,
    ind2: Seq<char>,
    kind: Seq<char>,
    label: Seq<char>,
    dur: Seq<char>,
    ease: Seq<char>,
    style: Seq<char>,
    dir: Seq<char>,
    target: Seq<char>,
) -> (r: (Seq<char>, Seq<char>))
    ensures
        r.0 == a + r.1,
        r.0 == (a + b) + ind + "-- "@ + kind + ": "@ + label + " "@ + dur + "s "@ + ease + "\n"@ + ind
            + "do\n"@ + ind1 + "    local TweenService = game:GetService(\"TweenService\")\n"@ + ind1
            + "    local tweenInfo = TweenInfo.new("@ + dur + ", "@ + style + ", "@ + dir + ")\n"@
            + ind1 + "    "@ + var + ".AncestryChanged:Once(function()\n"@ + ind2 + "        if "@
            + var + ".Parent then\n"@ + ind2 + "            "@ + var
            + ".BackgroundTransparency = 1\n"@ + ind2 + "            local tween = TweenService:Create("@
            + var + ", tweenInfo, "@ + target + ")\n"@ + ind2 + "            tween:Play()\n"@ + ind2
            + "        end\n"@ + ind1 + "    end)\n"@ + ind + "end\n"@,
        r.1 == b + ind + "-- "@ + kind + ": "@ + label + " "@ + dur + "s "@ + ease + "\n"@ + ind
            + "do\n"@ + ind1 + "    local TweenService = game:GetService(\"TweenService\")\n"@ + ind1
            + "    local tweenInfo = TweenInfo.new("@ + dur + ", "@ + style + ", "@ + dir + ")\n"@
            + ind1 + "    "@ + var + ".AncestryChanged:Once(function()\n"@ + ind2 + "        if "@
            + var + ".Parent then\n"@ + ind2 + "            "@ + var
            + ".BackgroundTransparency = 1\n"@ + ind2 + "            local tween = TweenService:Create("@
            + var + ", tweenInfo, "@ + target + ")\n"@ + ind2 + "            tween:Play()\n"@ + ind2
            + "        end\n"@ + ind1 + "    end)\n"@ + ind + "end\n"@,
{
    let mut u = a + b;
    let mut v = b;
    lemma_after(a, u, v, ind);
    u = u + ind;
    v = v + ind;
    lemma_after(a, u, v, "-- "@);
    u = u + "-- "@;
    v = v + "-- "@;
    lemma_after(a, u, v, kind);
    u = u + kind;
    v = v + kind;
    lemma_after(a, u, v, ": "@);
    u = u + ": "@;
    v = v + ": "@;
    lemma_after(a, u, v, label);
    u = u + label;
    v = v + label;
    lemma_after(a, u, v, " "@);
    u = u + " "@;
    v = v + " "@;
    lemma_after(a, u, v, dur);
    u = u + dur;
    v = v + dur;
    lemma_after(a, u, v, "s "@);
    u = u + "s "@;
    v = v + "s "@;
    lemma_after(a, u, v, ease);
    u = u + ease;
    v = v + ease;
    lemma_after(a, u, v, "\n"@);
    u = u + "\n"@;
    v = v + "\n"@;
    lemma_after(a, u, v, ind);
    u = u + ind;
    v = v + ind;
    lemma_after(a, u, v, "do\n"@);
    u = u + "do\n"@;
    v = v + "do\n"@;
    lemma_after(a, u, v, ind1);
    u = u + ind1;
    v = v + ind1;
    lemma_after(a, u, v, "    local TweenService = game:GetService(\"TweenService\")\n"@);
    u = u + "    local TweenService = game:GetService(\"TweenService\")\n"@;
    v = v + "    local TweenService = game:GetService(\"TweenService\")\n"@;
    lemma_after(a, u, v, ind1);
    u = u + ind1;
    v = v + ind1;
    lemma_after(a, u, v, "    local tweenInfo = TweenInfo.new("@);
    u = u + "    local tweenInfo = TweenInfo.new("@;
    v = v + "    local tweenInfo = TweenInfo.new("@;
    lemma_after(a, u, v, dur);
    u = u + dur;
    v = v + dur;
    lemma_after(a, u, v, ", "@);
    u = u + ", "@;
    v = v + ", "@;
    lemma_after(a, u, v, style);
    u = u + style;
    v = v + style;
    lemma_after(a, u, v, ", "@);
    u = u + ", "@;
    v = v + ", "@;
    lemma_after(a, u, v, dir);
    u = u + dir;
    v = v + dir;
    lemma_after(a, u, v, ")\n"@);
    u = u + ")\n"@;
    v = v + ")\n"@;
    lemma_after(a, u, v, ind1);
    u = u + ind1;
    v = v + ind1;
    lemma_after(a, u, v, "    "@);
    u = u + "    "@;
    v = v + "    "@;
    lemma_after(a, u, v, var);
    u = u + var;
    v = v + var;
    lemma_after(a, u, v, ".AncestryChanged:Once(function()\n"@);
    u = u + ".AncestryChanged:Once(function()\n"@;
    v = v + ".AncestryChanged:Once(function()\n"@;
    lemma_after(a, u, v, ind2);
    u = u + ind2;
    v = v + ind2;
    lemma_after(a, u, v, "        if "@);
    u = u + "        if "@;
    v = v + "        if "@;
    lemma_after(a, u, v, var);
    u = u + var;
    v = v + var;
    lemma_after(a, u, v, ".Parent then\n"@);
    u = u + ".Parent then\n"@;
    v = v + ".Parent then\n"@;
    lemma_after(a, u, v, ind2);
    u = u + ind2;
    v = v + ind2;
    lemma_after(a, u, v, "            "@);
    u = u + "            "@;
    v = v + "            "@;
    lemma_after(a, u, v, var);
    u = u + var;
    v = v + var;
    lemma_after(a, u, v, ".BackgroundTransparency = 1\n"@);
    u = u + ".BackgroundTransparency = 1\n"@;
    v = v + ".BackgroundTransparency = 1\n"@;
    lemma_after(a, u, v, ind2);
    u = u + ind2;
    v = v + ind2;
    lemma_after(a, u, v, "            local tween = TweenService:Create("@);
    u = u + "            local tween = TweenService:Create("@;
    v = v + "            local tween = TweenService:Create("@;
    lemma_after(a, u, v, var);
    u = u + var;
    v = v + var;
    lemma_after(a, u, v, ", tweenInfo, "@);
    u = u + ", tweenInfo, "@;
    v = v + ", tweenInfo, "@;
    lemma_after(a, u, v, target);
    u = u + target;
    v = v + target;
    lemma_after(a, u, v, ")\n"@);
    u = u + ")\n"@;
    v = v + ")\n"@;
    lemma_after(a, u, v, ind2);
    u = u + ind2;
    v = v + ind2;
    lemma_after(a, u, v, "            tween:Play()\n"@);
    u = u + "            tween:Play()\n"@;
    v = v + "            tween:Play()\n"@;
    lemma_after(a, u, v, ind2);
    u = u + ind2;
    v = v + ind2;
    lemma_after(a, u, v, "        end\n"@);
    u = u + "        end\n"@;
    v = v + "        end\n"@;
    lemma_after(a, u, v, ind1);
    u = u + ind1;
    v = v + ind1;
    lemma_after(a, u, v, "    end)\n"@);
    u = u + "    end)\n"@;
    v = v + "    end)\n"@;
    lemma_after(a, u, v, ind);
    u = u + ind;
    v = v + ind;
    lemma_after(a, u, v, "end\n"@);
    u = u + "end\n"@;
    v = v + "end\n"@;
    (u, v)
}

proof fn lemma_tween_prefix(
    a: Seq<char>,
    b: Seq<char>,
    var: Seq<char>,
    ind: Seq<char>,
    level: nat,
    kind: Seq<char>,
    label: Seq<char>,
    dur: Seq<char>,
    ease: Seq<char>,
    target: Seq<char>,
)
    ensures
        tween(a + b, var, ind, level, kind, label, dur, ease, target) == a + tween(
            b,
            var,
            ind,
            level,
            kind,
            label,
            dur,
            ease,
            target,
        ),
{
    let (style, dir) = easing(ease);
    let _ = lemma_tween_text(
        a,
        b,
        var,
        ind,
        spaces(level + 1),
        spaces(level + 2),
        kind,
        label,
        dur,
        ease,
        style,
        dir,
        target,
    );
}

proof fn lemma_transition_prefix(a: Seq<char>, b: Seq<char>, var: Seq<char>, v: Seq<char>, ind: Seq<char>, level: nat, t: STable)
    ensures
        transition(a + b, var, v, ind, level, t) == pre(a, transition(b, var, v, ind, level, t)),
        animation(a + b, var, v, ind, level, t) == pre(a, animation(b, var, v, ind, level, t)),
{
    let (prop, d, ease) = tween_parts(v, "all"@);
    let (name, d2, ease2) = tween_parts(v, "fadeIn"@);
    if let Ok(dur) = num(t, NumOp::Show, d) {
        lemma_tween_prefix(a, b, var, ind, level, "Transition"@, prop, dur, ease, bt_target());
        lemma_tween_prefix(a, b, var, ind, level, "Transition"@, prop, dur, ease, size_target());
    }
    if let Ok(dur) = num(t, NumOp::Show, d2) {
        lemma_tween_prefix(a, b, var, ind, level, "Animation"@, name, dur, ease2, bt_target());
        lemma_tween_prefix(a, b, var, ind, level, "Animation"@, name, dur, ease2, size_target());
    }
}

proof fn lemma_tweens_prefix(a: Seq<char>, b: Seq<char>, p: SProps, var: Seq<char>, ind: Seq<char>, level: nat, t: STable)
    ensures
        tweens(a + b, p, var, ind, level, t) == pre(a, tweens(b, p, var, ind, level, t)),
{
    let r1 = match pget(p, "data-transition"@) {
        Some(v) => transition(b, var, v, ind, level, t),
        None => Ok(b),
    };
    if let Some(v) = pget(p, "data-transition"@) {
        lemma_transition_prefix(a, b, var, v, ind, level, t);
    }
    if let Ok(o1) = r1 {
        let r2 = match pget(p, "Transition"@) {
            Some(v) => transition(o1, var, v, ind, level, t),
            None => Ok(o1),
        };
        if let Some(v) = pget(p, "Transition"@) {
            lemma_transition_prefix(a, o1, var, v, ind, level, t);
        }
        if let Ok(o2) = r2 {
            let r3 = match pget(p, "data-animate"@) {
                Some(v) => animation(o2, var, v, ind, level, t),
                None => Ok(o2),
            };
            if let Some(v) = pget(p, "data-animate"@) {
                lemma_transition_prefix(a, o2, var, v, ind, level, t);
            }
            if let Ok(o3) = r3 {
                if let Some(v) = pget(p, "Animation"@) {
                    lemma_transition_prefix(a, o3, var, v, ind, level, t);
                }
            }
        }
    }
}

proof fn lemma_helpers_prefix(a: Seq<char>, b: Seq<char>, hs: Seq<SNode>, i: int, var: Seq<char>, ind: Seq<char>, c: nat, t: STable)
    ensures
        helpers_out(a + b, hs, i, var, ind, c, t) == pre_c(a, helpers_out(b, hs, i, var, ind, c, t)),
    decreases hs.len() - i,
{
    if 0 <= i < hs.len() && c + 1 <= u32::MAX {
        let c1 = (c + 1) as nat;
        let h = hs[i];
        let hvar = var_name(h.itype, c1);
        let ob = b + ind + "-- "@ + comment_for(h.itype) + "\n"@ + ind + "local "@ + hvar
            + " = Instance.new("@ + lua_str(h.itype) + ")\n"@ + ind + hvar + ".Parent = "@ + var
            + "\n"@;
        let oab = (a + b) + ind + "-- "@ + comment_for(h.itype) + "\n"@ + ind + "local "@ + hvar
            + " = Instance.new("@ + lua_str(h.itype) + ")\n"@ + ind + hvar + ".Parent = "@ + var
            + "\n"@;
        let mut u = a + b;
        let mut v = b;
        lemma_after(a, u, v, ind);
        u = u + ind;
        v = v + ind;
        lemma_after(a, u, v, "-- "@);
        u = u + "-- "@;
        v = v + "-- "@;
        lemma_after(a, u, v, comment_for(h.itype));
        u = u + comment_for(h.itype);
        v = v + comment_for(h.itype);
        lemma_after(a, u, v, "\n"@);
        u = u + "\n"@;
        v = v + "\n"@;
        lemma_after(a, u, v, ind);
        u = u + ind;
        v = v + ind;
        lemma_after(a, u, v, "local "@);
        u = u + "local "@;
        v = v + "local "@;
        lemma_after(a, u, v, hvar);
        u = u + hvar;
        v = v + hvar;
        lemma_after(a, u, v, " = Instance.new("@);
        u = u + " = Instance.new("@;
        v = v + " = Instance.new("@;
        lemma_after(a, u, v, lua_str(h.itype));
        u = u + lua_str(h.itype);
        v = v + lua_str(h.itype);
        lemma_after(a, u, v, ")\n"@);
        u = u + ")\n"@;
        v = v + ")\n"@;
        lemma_after(a, u, v, ind);
        u = u + ind;
        v = v + ind;
        lemma_after(a, u, v, hvar);
        u = u + hvar;
        v = v + hvar;
        lemma_after(a, u, v, ".Parent = "@);
        u = u + ".Parent = "@;
        v = v + ".Parent = "@;
        lemma_after(a, u, v, var);
        u = u + var;
        v = v + var;
        lemma_after(a, u, v, "\n"@);
        u = u + "\n"@;
        v = v + "\n"@;
        assert(oab == u && ob == v);
        lemma_hprops_prefix(a, ob, h.props, 0, ind, hvar, t);
        if let Ok(o2) = hprops(ob, h.props, 0, ind, hvar, t) {
            lemma_helpers_prefix(a, o2, hs, i + 1, var, ind, c1, t);
        }
    }
}

proof fn lemma_emit_prefix(a: Seq<char>, b: Seq<char>, n: SNode, parent: Seq<char>, c: nat, level: nat, t: STable)
    ensures
        emit(a + b, n, parent, c, level, t) == pre_c(a, emit(b, n, parent, c, level, t)),
    decreases n,
{
    if c + 1 <= u32::MAX {
        let c1 = (c + 1) as nat;
        let var = var_name(n.itype, c1);
        let ind = spaces(level);
        lemma_top_prefix(a, b, n, var, ind, parent, t);
        if let Ok(o1) = top_lines(b, n, var, ind, parent, t) {
            lemma_helpers_prefix(a, o1, n.helpers, 0, var, ind, c1, t);
            if let Ok((o2, c2)) = helpers_out(o1, n.helpers, 0, var, ind, c1, t) {
                lemma_nprops_prefix(a, o2, n.props, 0, ind, var, t);
                if let Ok(o3) = nprops(o2, n.props, 0, ind, var, t) {
                    lemma_click_prefix(a, o3, n.props, ind, level, var);
                    if let Ok(o4) = click(o3, n.props, ind, level, var) {
                        lemma_tweens_prefix(a, o4, n.props, var, ind, level, t);
                        if let Ok(o5) = tweens(o4, n.props, var, ind, level, t) {
                            lemma_emit_kids_prefix(a, o5, n.children, var, c2, level, t);
                        }
                    }
                }
            }
        }
    }
}

proof fn lemma_emit_kids_prefix(a: Seq<char>, b: Seq<char>, kids: Seq<SNode>, parent: Seq<char>, c: nat, level: nat, t: STable)
    ensures
        emit_kids(a + b, kids, parent, c, level, t) == pre_c(a, emit_kids(b, kids, parent, c, level, t)),
    decreases kids,
{
    if kids.len() > 0 && level + 1 <= u32::MAX {
        lemma_emit_prefix(a, b, kids[0], parent, c, (level + 1) as nat, t);
        if let Ok((o, c1)) = emit(b, kids[0], parent, c, (level + 1) as nat, t) {
            lemma_emit_kids_prefix(a, o, kids.drop_first(), parent, c1, level, t);
        }
    }
}

/// Emitting a node only appends to the text before it, and what it appends
/// does not depend on that text: it opens with the node's comment line and
/// the declaration `local <var> = Instance.new("<class>")` of its own
/// instance, numbered one past the counter, and the counter advances by the
/// number of the tree's instances.
pub proof fn law_emit_appends(out: Seq<char>, n: SNode, parent: Seq<char>, c: nat, level: nat, t: STable)
    ensures
        emit(out, n, parent, c, level, t) == pre_c(out, emit(Seq::empty(), n, parent, c, level, t)),
        emit(Seq::empty(), n, parent, c, level, t) matches Ok((tree, c2)) ==> {
            let head = head_lines(
                Seq::empty(),
                n,
                var_name(n.itype, (c + 1) as nat),
                spaces(level),
                parent,
            );
            &&& c2 == c + instances(n)
            &&& head.len() <= tree.len()
            &&& tree.take(head.len() as int) == head
        },
{
    let e = Seq::<char>::empty();
    assert(out + e =~= out);
    lemma_emit_prefix(out, e, n, parent, c, level, t);
    lemma_emit_count(e, n, parent, c, level, t);
    if c + 1 <= u32::MAX {
        let c1 = (c + 1) as nat;
        let var = var_name(n.itype, c1);
        let ind = spaces(level);
        let h = head_lines(e, n, var, ind, parent);
        assert(h + e =~= h);
        lemma_key_line_prefix(h, e, ind, var, n.props, "Size"@, t);
        if let Ok(x1) = key_line(e, ind, var, n.props, "Size"@, t) {
            lemma_key_line_prefix(h, x1, ind, var, n.props, "BackgroundColor3"@, t);
            if let Ok(x2) = key_line(x1, ind, var, n.props, "BackgroundColor3"@, t) {
                lemma_key_line_prefix(h, x2, ind, var, n.props, "BorderSizePixel"@, t);
                if let Ok(x3) = key_line(x2, ind, var, n.props, "BorderSizePixel"@, t) {
                    assert(top_lines(e, n, var, ind, parent, t) == Ok::<Seq<char>, SHalt>(h + x3));
                    lemma_helpers_prefix(h, x3, n.helpers, 0, var, ind, c1, t);
                    if let Ok((x4, c2)) = helpers_out(x3, n.helpers, 0, var, ind, c1, t) {
                        lemma_nprops_prefix(h, x4, n.props, 0, ind, var, t);
                        if let Ok(x5) = nprops(x4, n.props, 0, ind, var, t) {
                            lemma_click_prefix(h, x5, n.props, ind, level, var);
                            if let Ok(x6) = click(x5, n.props, ind, level, var) {
                                lemma_tweens_prefix(h, x6, n.props, var, ind, level, t);
                                if let Ok(x7) = tweens(x6, n.props, var, ind, level, t) {
                                    lemma_emit_kids_prefix(h, x7, n.children, var, c2, level, t);
                                    if let Ok((x8, _)) = emit_kids(x7, n.children, var, c2, level, t) {
                                        assert((h + x8).take(h.len() as int) =~= h);
                                    }
                                }
                            }
                        }
                    }
                }
            }
        }
    }
}

/// The UI tree code of a root node: its `emit` output on its own.
pub open spec fn tree_code(root: SNode, t: STable) -> Result<(Seq<char>, nat), SHalt> {
    emit(Seq::empty(), root, "root"@, 0, 0, t)
}

/// The module and the standalone script carry the same UI tree code and
/// fail alike; they differ only in what stands around it (the Controller
/// stubs and services before it, and the return or the mount after it).
pub proof fn law_module_and_script_share_tree(root: SNode, t: STable)
    ensures
        match tree_code(root, t) {
            Ok((tree, _)) => {
                &&& gen(root, false, t) == Ok::<Seq<char>, SHalt>(
                    header_text() + root_text() + viewport_text() + "\n-- === UI Tree ===\n"@ + tree
                        + "\nreturn root\n"@,
                )
                &&& gen(root, true, t) == Ok::<Seq<char>, SHalt>(
                    stubs(header_text() + services_text(), handlers(root)) + root_text()
                        + viewport_text() + "\n-- === UI Tree ===\n"@ + tree
                        + "\n-- === Mount to PlayerGui ===\nroot.Parent = playerGui\n"@,
                )
            },
            Err(e) => gen(root, false, t) == Err::<Seq<char>, SHalt>(e) && gen(root, true, t) == Err::<
                Seq<char>,
                SHalt,
            >(e),
        },
{
    let e = Seq::<char>::empty();
    let m3 = header_text() + root_text() + viewport_text() + "\n-- === UI Tree ===\n"@;
    let s3 = stubs(header_text() + services_text(), handlers(root)) + root_text() + viewport_text()
        + "\n-- === UI Tree ===\n"@;
    assert(m3 + e =~= m3);
    assert(s3 + e =~= s3);
    lemma_emit_prefix(m3, e, root, "root"@, 0, 0, t);
    lemma_emit_prefix(s3, e, root, "root"@, 0, 0, t);
    if let Ok((tree, _)) = tree_code(root, t) {
        assert(m3 + tree + "\nreturn root\n"@ =~= header_text() + root_text() + viewport_text()
            + "\n-- === UI Tree ===\n"@ + tree + "\nreturn root\n"@);
        assert(s3 + tree + "\n-- === Mount to PlayerGui ===\nroot.Parent = playerGui\n"@ =~= stubs(
            header_text() + services_text(),
            handlers(root),
        ) + root_text() + viewport_text() + "\n-- === UI Tree ===\n"@ + tree
            + "\n-- === Mount to PlayerGui ===\nroot.Parent = playerGui\n"@);
    }
}



/// The Controller stubs of the handlers `hs`, one after another, in order.
pub open spec fn stub_lines(hs: Seq<Seq<char>>) -> Seq<char>
    decreases hs.len(),
{
    if hs.len() == 0 {
        Seq::empty()
    } else {
        "function Controller."@ + hs[0] + stub_body() + stub_lines(hs.drop_first())
    }
}

proof fn lemma_stubs(out: Seq<char>, hs: Seq<Seq<char>>)
    ensures
        stubs(out, hs) == out + stub_lines(hs),
    decreases hs.len(),
{
    if hs.len() == 0 {
        assert(out + Seq::<char>::empty() =~= out);
    } else {
        let o = out + "function Controller."@ + hs[0] + stub_body();
        lemma_stubs(o, hs.drop_first());
        assert(o + stub_lines(hs.drop_first()) =~= out + stub_lines(hs));
    }
}

/// The standalone script is the module's tree code framed by the services,
/// one `function Controller.<name>()` stub for each handler that
/// `collect_handlers` lists (each once, in that order), and the mount in
/// place of the return.
pub proof fn law_one_stub_per_handler(root: SNode, t: STable)
    ensures
        tree_code(root, t) matches Ok((tree, _)) ==> gen(root, true, t) == Ok::<Seq<char>, SHalt>(
            header_text() + services_text() + stub_lines(handlers(root)) + root_text()
                + viewport_text() + "\n-- === UI Tree ===\n"@ + tree
                + "\n-- === Mount to PlayerGui ===\nroot.Parent = playerGui\n"@,
        ),
        handlers(root).no_duplicates(),
{
    law_module_and_script_share_tree(root, t);
    law_handlers_each_once(root);
    lemma_stubs(header_text() + services_text(), handlers(root));
}


proof fn lemma_hprops_fresh(out: Seq<char>, p: SProps, i: int, ind: Seq<char>, hvar: Seq<char>, t: STable)
    ensures
        asks_fresh(t, hprops(out, p, i, ind, hvar, t)),
        uncut(hprops(out, p, i, ind, hvar, t)),
    decreases p.len() - i,
{
    if 0 <= i < p.len() {
        if contains(p[i].0, "-"@) {
            lemma_hprops_fresh(out, p, i + 1, ind, hvar, t);
        } else if let Ok(o) = prop_line(out, ind, hvar, p[i].0, p[i].1, t) {
            lemma_hprops_fresh(o, p, i + 1, ind, hvar, t);
        }
    }
}

proof fn lemma_nprops_fresh(out: Seq<char>, p: SProps, i: int, ind: Seq<char>, var: Seq<char>, t: STable)
    ensures
        asks_fresh(t, nprops(out, p, i, ind, var, t)),
        uncut(nprops(out, p, i, ind, var, t)),
    decreases p.len() - i,
{
    if 0 <= i < p.len() {
        if skip_key(p[i].0) {
            lemma_nprops_fresh(out, p, i + 1, ind, var, t);
        } else if let Ok(o) = prop_line(out, ind, var, p[i].0, p[i].1, t) {
            lemma_nprops_fresh(o, p, i + 1, ind, var, t);
        }
    }
}

proof fn lemma_helpers_fresh(out: Seq<char>, hs: Seq<SNode>, i: int, var: Seq<char>, ind: Seq<char>, c: nat, t: STable)
    ensures
        asks_fresh(t, helpers_out(out, hs, i, var, ind, c, t)),
        uncut(helpers_out(out, hs, i, var, ind, c, t)),
    decreases hs.len() - i,
{
    if 0 <= i < hs.len() && c + 1 <= u32::MAX {
        let c1 = (c + 1) as nat;
        let h = hs[i];
        let hvar = var_name(h.itype, c1);
        let o = out + ind + "-- "@ + comment_for(h.itype) + "\n"@ + ind + "local "@ + hvar
            + " = Instance.new("@ + lua_str(h.itype) + ")\n"@ + ind + hvar + ".Parent = "@ + var
            + "\n"@;
        lemma_hprops_fresh(o, h.props, 0, ind, hvar, t);
        if let Ok(o2) = hprops(o, h.props, 0, ind, hvar, t) {
            lemma_helpers_fresh(o2, hs, i + 1, var, ind, c1, t);
        }
    }
}

proof fn lemma_prop_line_fresh(out: Seq<char>, ind: Seq<char>, var: Seq<char>, k: Seq<char>, v: Seq<char>, t: STable)
    ensures
        asks_fresh(t, prop_line(out, ind, var, k, v, t)),
        uncut(prop_line(out, ind, var, k, v, t)),
{
}

proof fn lemma_top_fresh(out: Seq<char>, n: SNode, var: Seq<char>, ind: Seq<char>, parent: Seq<char>, t: STable)
    ensures
        asks_fresh(t, top_lines(out, n, var, ind, parent, t)),
        uncut(top_lines(out, n, var, ind, parent, t)),
{
    let h = head_lines(out, n, var, ind, parent);
    if let Some(v) = pget(n.props, "Size"@) {
        lemma_prop_line_fresh(h, ind, var, "Size"@, v, t);
    }
    if let Ok(o1) = key_line(h, ind, var, n.props, "Size"@, t) {
        if let Some(v) = pget(n.props, "BackgroundColor3"@) {
            lemma_prop_line_fresh(o1, ind, var, "BackgroundColor3"@, v, t);
        }
        if let Ok(o2) = key_line(o1, ind, var, n.props, "BackgroundColor3"@, t) {
            if let Some(v) = pget(n.props, "BorderSizePixel"@) {
                lemma_prop_line_fresh(o2, ind, var, "BorderSizePixel"@, v, t);
            }
        }
    }
}

proof fn lemma_click_fresh(out: Seq<char>, p: SProps, ind: Seq<char>, level: nat, var: Seq<char>, t: STable)
    ensures
        asks_fresh(t, click(out, p, ind, level, var)),
        uncut(click(out, p, ind, level, var)),
{
}

proof fn lemma_transition_fresh(out: Seq<char>, var: Seq<char>, v: Seq<char>, ind: Seq<char>, level: nat, t: STable)
    ensures
        asks_fresh(t, transition(out, var, v, ind, level, t)),
        uncut(transition(out, var, v, ind, level, t)),
{
}

proof fn lemma_animation_fresh(out: Seq<char>, var: Seq<char>, v: Seq<char>, ind: Seq<char>, level: nat, t: STable)
    ensures
        asks_fresh(t, animation(out, var, v, ind, level, t)),
        uncut(animation(out, var, v, ind, level, t)),
{
}

proof fn lemma_tweens_fresh(out: Seq<char>, p: SProps, var: Seq<char>, ind: Seq<char>, level: nat, t: STable)
    ensures
        asks_fresh(t, tweens(out, p, var, ind, level, t)),
        uncut(tweens(out, p, var, ind, level, t)),
{
    if let Some(v) = pget(p, "data-transition"@) {
        lemma_transition_fresh(out, var, v, ind, level, t);
    }
    let r1 = match pget(p, "data-transition"@) {
        Some(v) => transition(out, var, v, ind, level, t),
        None => Ok(out),
    };
    if let Ok(o1) = r1 {
        if let Some(v) = pget(p, "Transition"@) {
            lemma_transition_fresh(o1, var, v, ind, level, t);
        }
        let r2 = match pget(p, "Transition"@) {
            Some(v) => transition(o1, var, v, ind, level, t),
            None => Ok(o1),
        };
        if let Ok(o2) = r2 {
            if let Some(v) = pget(p, "data-animate"@) {
                lemma_animation_fresh(o2, var, v, ind, level, t);
            }
            let r3 = match pget(p, "data-animate"@) {
                Some(v) => animation(o2, var, v, ind, level, t),
                None => Ok(o2),
            };
            if let Ok(o3) = r3 {
                if let Some(v) = pget(p, "Animation"@) {
                    lemma_animation_fresh(o3, var, v, ind, level, t);
                }
            }
        }
    }
}

proof fn lemma_emit_fresh(out: Seq<char>, n: SNode, parent: Seq<char>, c: nat, level: nat, t: STable)
    ensures
        asks_fresh(t, emit(out, n, parent, c, level, t)),
        uncut(emit(out, n, parent, c, level, t)),
    decreases n,
{
    if c + 1 <= u32::MAX {
        let c1 = (c + 1) as nat;
        let var = var_name(n.itype, c1);
        let ind = spaces(level);
        lemma_top_fresh(out, n, var, ind, parent, t);
        if let Ok(o1) = top_lines(out, n, var, ind, parent, t) {
            lemma_helpers_fresh(o1, n.helpers, 0, var, ind, c1, t);
            if let Ok((o2, c2)) = helpers_out(o1, n.helpers, 0, var, ind, c1, t) {
                lemma_nprops_fresh(o2, n.props, 0, ind, var, t);
                if let Ok(o3) = nprops(o2, n.props, 0, ind, var, t) {
                    lemma_click_fresh(o3, n.props, ind, level, var, t);
                    if let Ok(o4) = click(o3, n.props, ind, level, var) {
                        lemma_tweens_fresh(o4, n.props, var, ind, level, t);
                        if let Ok(o5) = tweens(o4, n.props, var, ind, level, t) {
                            lemma_emit_kids_fresh(o5, n.children, var, c2, level, t);
                        }
                    }
                }
            }
        }
    }
}

proof fn lemma_emit_kids_fresh(out: Seq<char>, kids: Seq<SNode>, parent: Seq<char>, c: nat, level: nat, t: STable)
    ensures
        asks_fresh(t, emit_kids(out, kids, parent, c, level, t)),
        uncut(emit_kids(out, kids, parent, c, level, t)),
    decreases kids,
{
    if kids.len() > 0 && level + 1 <= u32::MAX {
        lemma_emit_fresh(out, kids[0], parent, c, (level + 1) as nat, t);
        if let Ok((o, c1)) = emit(out, kids[0], parent, c, (level + 1) as nat, t) {
            lemma_emit_kids_fresh(o, kids.drop_first(), parent, c1, level, t);
        }
    }
}

/// Generation stops for a number only when the table lacks it: with a
/// table that answers every number a run asks for, it returns the text,
/// unless an instance counter overflows.
pub proof fn law_generate_answered(root: SNode, standalone: bool, t: STable)
    ensures
        asks_fresh(t, gen(root, standalone, t)),
        uncut(gen(root, standalone, t)),
        gen(root, standalone, t) matches Err(e) ==> e is Overflow || (e matches SHalt::Need(op, x)
            && lookup(t, op, x) is None),
{
    let o1 = header_text();
    let o2 = if standalone {
        stubs(o1 + services_text(), handlers(root))
    } else {
        o1
    };
    let o3 = o2 + root_text() + viewport_text() + "\n-- === UI Tree ===\n"@;
    lemma_emit_fresh(o3, root, "root"@, 0, 0, t);
    assert(gen(root, standalone, t) == match emit(o3, root, "root"@, 0, 0, t) {
        Ok((o4, _)) => Ok(
            o4 + if standalone {
                "\n-- === Mount to PlayerGui ===\nroot.Parent = playerGui\n"@
            } else {
                "\nreturn root\n"@
            },
        ),
        Err(e) => Err(e),
    });
}


proof fn lemma_contains_prefix(s: Seq<char>, p: Seq<char>, q: Seq<char>)
    requires
        q.len() <= p.len(),
        p.take(q.len() as int) == q,
        contains(s, p),
    ensures
        contains(s, q),
{
    lemma_find_from(s, p, 0);
    lemma_find_from(s, q, 0);
    let k = find(s, p)->0;
    assert(s.subrange(k, k + q.len()) =~= s.subrange(k, k + p.len()).take(q.len() as int));
    if find(s, q) is None {
        assert(occurs_at(s, q, k));
    }
}

/// Each CSS easing family becomes the Roblox `EasingStyle` of the same name,
/// looked for (in the lower-cased name) in the order elastic, back, bounce,
/// expo, quad, cubic, quart, quint, sine, circ; a name of none of them eases
/// with `Quad`. `inout` eases both ways, `in` without `out` eases in, and
/// anything else eases out.
pub proof fn law_easing_families(e: Seq<char>)
    ensures
        contains(lower(e), "elastic"@) ==> easing(e).0 == "Enum.EasingStyle.Elastic"@,
        !contains(lower(e), "elastic"@) && contains(lower(e), "back"@) ==> easing(e).0 == "Enum.EasingStyle.Back"@,
        !contains(lower(e), "elastic"@) && !contains(lower(e), "back"@) && contains(lower(e), "bounce"@) ==> easing(e).0 == "Enum.EasingStyle.Bounce"@,
        !contains(lower(e), "elastic"@) && !contains(lower(e), "back"@) && !contains(lower(e), "bounce"@) && contains(lower(e), "expo"@) ==> easing(e).0 == "Enum.EasingStyle.Exponential"@,
        !contains(lower(e), "elastic"@) && !contains(lower(e), "back"@) && !contains(lower(e), "bounce"@) && !contains(lower(e), "expo"@) && contains(lower(e), "quad"@) ==> easing(e).0 == "Enum.EasingStyle.Quad"@,
        !contains(lower(e), "elastic"@) && !contains(lower(e), "back"@) && !contains(lower(e), "bounce"@) && !contains(lower(e), "expo"@) && !contains(lower(e), "quad"@) && contains(lower(e), "cubic"@) ==> easing(e).0 == "Enum.EasingStyle.Cubic"@,
        !contains(lower(e), "elastic"@) && !contains(lower(e), "back"@) && !contains(lower(e), "bounce"@) && !contains(lower(e), "expo"@) && !contains(lower(e), "quad"@) && !contains(lower(e), "cubic"@) && contains(lower(e), "quart"@) ==> easing(e).0 == "Enum.EasingStyle.Quart"@,
        !contains(lower(e), "elastic"@) && !contains(lower(e), "back"@) && !contains(lower(e), "bounce"@) && !contains(lower(e), "expo"@) && !contains(lower(e), "quad"@) && !contains(lower(e), "cubic"@) && !contains(lower(e), "quart"@) && contains(lower(e), "quint"@) ==> easing(e).0 == "Enum.EasingStyle.Quint"@,
        !contains(lower(e), "elastic"@) && !contains(lower(e), "back"@) && !contains(lower(e), "bounce"@) && !contains(lower(e), "expo"@) && !contains(lower(e), "quad"@) && !contains(lower(e), "cubic"@) && !contains(lower(e), "quart"@) && !contains(lower(e), "quint"@) && contains(lower(e), "sine"@) ==> easing(e).0 == "Enum.EasingStyle.Sine"@,
        !contains(lower(e), "elastic"@) && !contains(lower(e), "back"@) && !contains(lower(e), "bounce"@) && !contains(lower(e), "expo"@) && !contains(lower(e), "quad"@) && !contains(lower(e), "cubic"@) && !contains(lower(e), "quart"@) && !contains(lower(e), "quint"@) && !contains(lower(e), "sine"@) && contains(lower(e), "circ"@) ==> easing(e).0 == "Enum.EasingStyle.Circ"@,
        !contains(lower(e), "elastic"@) && !contains(lower(e), "back"@) && !contains(lower(e), "bounce"@) && !contains(lower(e), "expo"@) && !contains(lower(e), "quad"@) && !contains(lower(e), "cubic"@) && !contains(lower(e), "quart"@) && !contains(lower(e), "quint"@) && !contains(lower(e), "sine"@) && !contains(lower(e), "circ"@) ==> easing(e).0 == "Enum.EasingStyle.Quad"@,
        contains(lower(e), "inout"@) ==> easing(e).1 == "Enum.EasingDirection.InOut"@,
        !contains(lower(e), "inout"@) && contains(lower(e), "in"@) && !contains(lower(e), "out"@) ==> easing(e).1 == "Enum.EasingDirection.In"@,
        !contains(lower(e), "inout"@) && !(contains(lower(e), "in"@) && !contains(lower(e), "out"@)) ==> easing(e).1 == "Enum.EasingDirection.Out"@,
{
    reveal_strlit("expo");
    reveal_strlit("exponential");
    reveal_strlit("circ");
    reveal_strlit("circle");
    assert("exponential"@.take(4) =~= "expo"@);
    assert("circle"@.take(4) =~= "circ"@);
    if contains(lower(e), "exponential"@) {
        lemma_contains_prefix(lower(e), "exponential"@, "expo"@);
    }
    if contains(lower(e), "circle"@) {
        lemma_contains_prefix(lower(e), "circle"@, "circ"@);
    }
    reveal_strlit("Enum.EasingStyle.");
    reveal_strlit("Enum.EasingDirection.");
    reveal_strlit("InOut");
    reveal_strlit("In");
    reveal_strlit("Out");
    reveal_strlit("Elastic");
    reveal_strlit("Back");
    reveal_strlit("Bounce");
    reveal_strlit("Exponential");
    reveal_strlit("Quad");
    reveal_strlit("Cubic");
    reveal_strlit("Quart");
    reveal_strlit("Quint");
    reveal_strlit("Sine");
    reveal_strlit("Circ");
    reveal_strlit("Enum.EasingStyle.Elastic");
    reveal_strlit("Enum.EasingStyle.Back");
    reveal_strlit("Enum.EasingStyle.Bounce");
    reveal_strlit("Enum.EasingStyle.Exponential");
    reveal_strlit("Enum.EasingStyle.Quad");
    reveal_strlit("Enum.EasingStyle.Cubic");
    reveal_strlit("Enum.EasingStyle.Quart");
    reveal_strlit("Enum.EasingStyle.Quint");
    reveal_strlit("Enum.EasingStyle.Sine");
    reveal_strlit("Enum.EasingStyle.Circ");
    reveal_strlit("Enum.EasingDirection.InOut");
    reveal_strlit("Enum.EasingDirection.In");
    reveal_strlit("Enum.EasingDirection.Out");
    assert("Enum.EasingStyle."@ + "Elastic"@ =~= "Enum.EasingStyle.Elastic"@);
    assert("Enum.EasingStyle."@ + "Back"@ =~= "Enum.EasingStyle.Back"@);
    assert("Enum.EasingStyle."@ + "Bounce"@ =~= "Enum.EasingStyle.Bounce"@);
    assert("Enum.EasingStyle."@ + "Exponential"@ =~= "Enum.EasingStyle.Exponential"@);
    assert("Enum.EasingStyle."@ + "Quad"@ =~= "Enum.EasingStyle.Quad"@);
    assert("Enum.EasingStyle."@ + "Cubic"@ =~= "Enum.EasingStyle.Cubic"@);
    assert("Enum.EasingStyle."@ + "Quart"@ =~= "Enum.EasingStyle.Quart"@);
    assert("Enum.EasingStyle."@ + "Quint"@ =~= "Enum.EasingStyle.Quint"@);
    assert("Enum.EasingStyle."@ + "Sine"@ =~= "Enum.EasingStyle.Sine"@);
    assert("Enum.EasingStyle."@ + "Circ"@ =~= "Enum.EasingStyle.Circ"@);
    assert("Enum.EasingDirection."@ + "InOut"@ =~= "Enum.EasingDirection.InOut"@);
    assert("Enum.EasingDirection."@ + "In"@ =~= "Enum.EasingDirection.In"@);
    assert("Enum.EasingDirection."@ + "Out"@ =~= "Enum.EasingDirection.Out"@);
}

/// A tween is built from the duration and the easing it was given: its
/// `TweenInfo` line is `TweenInfo.new(<duration>, <style>, <direction>)` with
/// the style and direction of the easing name, in that order.
proof fn lemma_keeps_prefix(z: Seq<char>, y: Seq<char>, n: int)
    requires
        0 <= n <= z.len(),
    ensures
        (z + y).take(n) == z.take(n),
{
    assert((z + y).take(n) =~= z.take(n));
}

/// A tween is built from the duration and the easing it was given: its
/// `TweenInfo` line is `TweenInfo.new(<duration>, <style>, <direction>)` with
/// the style and direction of the easing name, in that order.
pub proof fn law_tween_uses_its_easing(
    out: Seq<char>,
    var: Seq<char>,
    ind: Seq<char>,
    level: nat,
    kind: Seq<char>,
    label: Seq<char>,
    dur: Seq<char>,
    ease: Seq<char>,
    target: Seq<char>,
)
    ensures
        exists|a: Seq<char>, b: Seq<char>|
            tween(out, var, ind, level, kind, label, dur, ease, target) == a
                + "    local tweenInfo = TweenInfo.new("@ + dur + ", "@ + easing(ease).0 + ", "@
                + easing(ease).1 + ")\n"@ + b,
{
    let ind1 = spaces(level + 1);
    let ind2 = spaces(level + 2);
    let a = out + ind + "-- "@ + kind + ": "@ + label + " "@ + dur + "s "@ + ease + "\n"@ + ind
        + "do\n"@ + ind1 + "    local TweenService = game:GetService(\"TweenService\")\n"@ + ind1;
    let z0 = a + "    local tweenInfo = TweenInfo.new("@ + dur + ", "@ + easing(ease).0 + ", "@
        + easing(ease).1 + ")\n"@;
    let n = z0.len() as int;
    let z1 = z0 + ind1;
    lemma_keeps_prefix(z0, ind1, n);
    let z2 = z1 + "    "@;
    lemma_keeps_prefix(z1, "    "@, n);
    let z3 = z2 + var;
    lemma_keeps_prefix(z2, var, n);
    let z4 = z3 + ".AncestryChanged:Once(function()\n"@;
    lemma_keeps_prefix(z3, ".AncestryChanged:Once(function()\n"@, n);
    let z5 = z4 + ind2;
    lemma_keeps_prefix(z4, ind2, n);
    let z6 = z5 + "        if "@;
    lemma_keeps_prefix(z5, "        if "@, n);
    let z7 = z6 + var;
    lemma_keeps_prefix(z6, var, n);
    let z8 = z7 + ".Parent then\n"@;
    lemma_keeps_prefix(z7, ".Parent then\n"@, n);
    let z9 = z8 + ind2;
    lemma_keeps_prefix(z8, ind2, n);
    let z10 = z9 + "            "@;
    lemma_keeps_prefix(z9, "            "@, n);
    let z11 = z10 + var;
    lemma_keeps_prefix(z10, var, n);
    let z12 = z11 + ".BackgroundTransparency = 1\n"@;
    lemma_keeps_prefix(z11, ".BackgroundTransparency = 1\n"@, n);
    let z13 = z12 + ind2;
    lemma_keeps_prefix(z12, ind2, n);
    let z14 = z13 + "            local tween = TweenService:Create("@;
    lemma_keeps_prefix(z13, "            local tween = TweenService:Create("@, n);
    let z15 = z14 + var;
    lemma_keeps_prefix(z14, var, n);
    let z16 = z15 + ", tweenInfo, "@;
    lemma_keeps_prefix(z15, ", tweenInfo, "@, n);
    let z17 = z16 + target;
    lemma_keeps_prefix(z16, target, n);
    let z18 = z17 + ")\n"@;
    lemma_keeps_prefix(z17, ")\n"@, n);
    let z19 = z18 + ind2;
    lemma_keeps_prefix(z18, ind2, n);
    let z20 = z19 + "            tween:Play()\n"@;
    lemma_keeps_prefix(z19, "            tween:Play()\n"@, n);
    let z21 = z20 + ind2;
    lemma_keeps_prefix(z20, ind2, n);
    let z22 = z21 + "        end\n"@;
    lemma_keeps_prefix(z21, "        end\n"@, n);
    let z23 = z22 + ind1;
    lemma_keeps_prefix(z22, ind1, n);
    let z24 = z23 + "    end)\n"@;
    lemma_keeps_prefix(z23, "    end)\n"@, n);
    let z25 = z24 + ind;
    lemma_keeps_prefix(z24, ind, n);
    let z26 = z25 + "end\n"@;
    lemma_keeps_prefix(z25, "end\n"@, n);
    let x = tween(out, var, ind, level, kind, label, dur, ease, target);
    assert(x == z26);
    assert(z0.take(n) =~= z0);
    let b = x.skip(n);
    assert(x =~= z0 + b);
}


/// In `<property> <duration> [<easing>]` the easing is the last of three
/// words, or the second of two; with one word or none it is `ease`. A
/// transition tweens with exactly that easing, after the number of its
/// duration is known.
pub proof fn law_transition_easing_word(
    out: Seq<char>,
    var: Seq<char>,
    v: Seq<char>,
    ind: Seq<char>,
    level: nat,
    t: STable,
)
    ensures
        words(v).len() == 3 ==> tween_parts(v, "all"@).2 == words(v)[2],
        words(v).len() == 2 ==> tween_parts(v, "all"@).2 == words(v)[1],
        words(v).len() < 2 ==> tween_parts(v, "all"@).2 == "ease"@,
        transition(out, var, v, ind, level, t) matches Ok(o) ==> exists|dur: Seq<char>, target: Seq<char>|
            o == tween(
                out,
                var,
                ind,
                level,
                "Transition"@,
                tween_parts(v, "all"@).0,
                dur,
                tween_parts(v, "all"@).2,
                target,
            ),
{
}

/// The property names whose values are normalized are told apart by their
/// length or by one character.
proof fn lemma_value_keys_apart()
    ensures
        "backgroundtransparency"@.len() == 22,
        "bordersizepixel"@.len() == 15,
        "imagetransparency"@.len() == 17,
        "layoutorder"@.len() == 11,
        "richtext"@.len() == 8,
        "scrollbarthickness"@.len() == 18,
        "textsize"@.len() == 8,
        "richtext"@ != "textsize"@,
{
    reveal_strlit("backgroundtransparency");
    reveal_strlit("bordersizepixel");
    reveal_strlit("imagetransparency");
    reveal_strlit("layoutorder");
    reveal_strlit("richtext");
    reveal_strlit("scrollbarthickness");
    reveal_strlit("textsize");
    assert("richtext"@[0] != "textsize"@[0]);
}

/// A property value becomes Luau: a value that already is a Luau expression
/// (a `Color3.`, `UDim2.`, `UDim.`, `Vector2.` or `Enum.` constructor, `true`
/// or `false`) stands as it is; an integer value of `BorderSizePixel`,
/// `TextSize`, `ScrollBarThickness` or `LayoutOrder` (any case) is written
/// as that integer; a number value of `ImageTransparency` or
/// `BackgroundTransparency` is written as the answer to its number; a
/// `RichText` value stands raw; any other value is a quoted Lua string.
pub proof fn law_property_values(key: Seq<char>, value: Seq<char>, t: STable)
    ensures
        starts_with(value, "Color3."@) || starts_with(value, "UDim2."@) || starts_with(value, "UDim."@)
            || starts_with(value, "Vector2."@) || starts_with(value, "Enum."@) || value == "true"@
            || value == "false"@ ==> map_prop(key, value, t) == Ok::<Seq<char>, SHalt>(value),
        !is_luau_expr(value) && (lower(key) == "bordersizepixel"@ || lower(key) == "layoutorder"@ || lower(key) == "scrollbarthickness"@ || lower(key) == "textsize"@) ==> (parse_i32(trim(value)) matches Some(n) ==> map_prop(
            key,
            value,
            t,
        ) == Ok::<Seq<char>, SHalt>(int_dec(n))),
        !is_luau_expr(value) && (lower(key) == "backgroundtransparency"@ || lower(key) == "imagetransparency"@) && is_float_lit(trim(value)) ==> map_prop(key, value, t) == num(
            t,
            NumOp::Show,
            trim(value),
        ),
        !is_luau_expr(value) && lower(key) == "richtext"@ ==> map_prop(key, value, t) == Ok::<
            Seq<char>,
            SHalt,
        >(value),
        !is_luau_expr(value) && !(lower(key) == "bordersizepixel"@ || lower(key) == "layoutorder"@ || lower(key) == "scrollbarthickness"@ || lower(key) == "textsize"@ || lower(key) == "backgroundtransparency"@ || lower(key) == "imagetransparency"@ || lower(key) == "richtext"@) ==> map_prop(
            key,
            value,
            t,
        ) == Ok::<Seq<char>, SHalt>(lua_str(value)),
        !is_luau_expr(value) && (lower(key) == "bordersizepixel"@ || lower(key) == "layoutorder"@ || lower(key) == "scrollbarthickness"@ || lower(key) == "textsize"@) && parse_i32(trim(value)) is None && !(lower(key) == "backgroundtransparency"@ || lower(key) == "imagetransparency"@)
            && lower(key) != "richtext"@ ==> map_prop(key, value, t) == Ok::<Seq<char>, SHalt>(lua_str(value)),
{
    lemma_value_keys_apart();
}

/// The helper classes are told apart by their length or by one character.
proof fn lemma_helper_classes_apart()
    ensures
        "UIAspectRatioConstraint"@.len() == 23,
        "UICorner"@.len() == 8,
        "UIFlexItem"@.len() == 10,
        "UIGradient"@.len() == 10,
        "UIGridLayout"@.len() == 12,
        "UIListLayout"@.len() == 12,
        "UIPadding"@.len() == 9,
        "UIPageLayout"@.len() == 12,
        "UIScale"@.len() == 7,
        "UIStroke"@.len() == 8,
        "UITableLayout"@.len() == 13,
        "UICorner"@ != "UIStroke"@,
        "UIFlexItem"@ != "UIGradient"@,
        "UIGridLayout"@ != "UIListLayout"@,
        "UIGridLayout"@ != "UIPageLayout"@,
        "UIListLayout"@ != "UIPageLayout"@,
{
    reveal_strlit("UIAspectRatioConstraint");
    reveal_strlit("UICorner");
    reveal_strlit("UIFlexItem");
    reveal_strlit("UIGradient");
    reveal_strlit("UIGridLayout");
    reveal_strlit("UIListLayout");
    reveal_strlit("UIPadding");
    reveal_strlit("UIPageLayout");
    reveal_strlit("UIScale");
    reveal_strlit("UIStroke");
    reveal_strlit("UITableLayout");
    assert("UICorner"@[2] != "UIStroke"@[2]);
    assert("UIFlexItem"@[2] != "UIGradient"@[2]);
    assert("UIGridLayout"@[2] != "UIListLayout"@[2]);
    assert("UIGridLayout"@[2] != "UIPageLayout"@[2]);
    assert("UIListLayout"@[2] != "UIPageLayout"@[2]);
}

/// The comment above each helper says what it does: a `UIListLayout` is the
/// flex arrangement, a `UIPadding` the inner padding, a `UICorner` the
/// rounded corners, and so on; any other class is a UI modifier.
pub proof fn law_helper_comments(it: Seq<char>)
    ensures
        it == "UIAspectRatioConstraint"@ ==> comment_for(it) == "aspect ratio constraint"@,
        it == "UICorner"@ ==> comment_for(it) == "rounded corners"@,
        it == "UIFlexItem"@ ==> comment_for(it) == "flex item sizing"@,
        it == "UIGradient"@ ==> comment_for(it) == "background gradient"@,
        it == "UIGridLayout"@ ==> comment_for(it) == "grid layout controller"@,
        it == "UIListLayout"@ ==> comment_for(it) == "layout controller (flex arrangement)"@,
        it == "UIPadding"@ ==> comment_for(it) == "inner padding"@,
        it == "UIPageLayout"@ ==> comment_for(it) == "page layout controller"@,
        it == "UIScale"@ ==> comment_for(it) == "scale modifier"@,
        it == "UIStroke"@ ==> comment_for(it) == "border stroke"@,
        it == "UITableLayout"@ ==> comment_for(it) == "table layout controller"@,
        it != "UIAspectRatioConstraint"@ && it != "UICorner"@ && it != "UIFlexItem"@ && it != "UIGradient"@ && it != "UIGridLayout"@ && it != "UIListLayout"@ && it != "UIPadding"@ && it != "UIPageLayout"@ && it != "UIScale"@ && it != "UIStroke"@ && it != "UITableLayout"@ ==> comment_for(it) == "UI modifier"@,
{
    lemma_helper_classes_apart();
}

/// What a transition tweens: a `scale` property (any case) grows the size
/// to full; `opacity`, `all` and anything else fade the background in.
/// An animation whose name holds `fade` or `opacity` fades in, one whose
/// name holds `scale` grows, and any other fades in.
pub proof fn law_tween_targets(out: Seq<char>, var: Seq<char>, v: Seq<char>, ind: Seq<char>, level: nat, t: STable)
    ensures
        bt_target() == "{ BackgroundTransparency = 0 }"@,
        size_target() == "{ Size = UDim2.fromScale(1, 1) }"@,
        transition(out, var, v, ind, level, t) matches Ok(o) ==> num(
            t,
            NumOp::Show,
            tween_parts(v, "all"@).1,
        ) matches Ok(dur) && o == tween(
                out,
                var,
                ind,
                level,
                "Transition"@,
                tween_parts(v, "all"@).0,
                dur,
                tween_parts(v, "all"@).2,
                if eq_ic(tween_parts(v, "all"@).0, "scale"@) {
                    "{ Size = UDim2.fromScale(1, 1) }"@
                } else {
                    "{ BackgroundTransparency = 0 }"@
                },
            ),
        animation(out, var, v, ind, level, t) matches Ok(o) ==> num(
            t,
            NumOp::Show,
            tween_parts(v, "fadeIn"@).1,
        ) matches Ok(dur) && o == tween(
                out,
                var,
                ind,
                level,
                "Animation"@,
                tween_parts(v, "fadeIn"@).0,
                dur,
                tween_parts(v, "fadeIn"@).2,
                if !contains(lower(tween_parts(v, "fadeIn"@).0), "fade"@) && !contains(
                    lower(tween_parts(v, "fadeIn"@).0),
                    "opacity"@,
                ) && contains(lower(tween_parts(v, "fadeIn"@).0), "scale"@) {
                    "{ Size = UDim2.fromScale(1, 1) }"@
                } else {
                    "{ BackgroundTransparency = 0 }"@
                },
            ),
{
    reveal_strlit("scale");
    reveal_strlit("opacity");
    reveal_strlit("all");
    let prop = tween_parts(v, "all"@).0;
    if eq_ic(prop, "scale"@) {
        assert(!eq_ic(prop, "opacity"@) && !eq_ic(prop, "all"@));
    }
}

} // verus!
