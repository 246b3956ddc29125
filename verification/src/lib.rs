//! HTML/CSS to Luau UI transpiler: the HTML document becomes a tree of
//! Roblox UI instances, the CSS rules are resolved onto it, layout helpers
//! are injected, and Luau code that builds the tree is generated.
use vstd::prelude::*;

pub mod text;
pub mod num;
pub mod dom;
pub mod mapping;
pub mod layout;
pub mod codegen;
pub mod css;
pub mod resolver;
pub mod html;

use crate::codegen::{gen, generate, generate_standalone, law_generate_answered, law_generated_ending};
use crate::dom::{snew, LuauNode, SNode};
use crate::html::{html_events, law_document_asks_nothing, parse, parse_events_spec, SEvent};
use crate::layout::{lemma_transform_fresh, transform, transform_spec};
use crate::num::{asks_fresh, fresh_err, lookup, resv, Halt, NumTable, SHalt, STable};
use crate::resolver::{lemma_resolve_fresh, resolve, resolve_spec};

verus! {

/// The UI tree that the pipeline starts from: the tree of the document, or
/// a bare `Frame` named `root` when the document has no element.
pub open spec fn start_tree(o: Option<SNode>) -> SNode {
    match o {
        Some(n) => n,
        None => snew("Frame"@, "root"@),
    }
}

/// The whole pipeline on a document walk: HTML tree, CSS resolved onto it,
/// layout transformed, Luau generated (a module, or a standalone script).
pub open spec fn compile_spec(evs: Seq<SEvent>, css: Seq<char>, standalone: bool, t: STable) -> Result<
    Seq<char>,
    SHalt,
> {
    match parse_events_spec(evs) {
        Ok(o) => match resolve_spec(start_tree(o), css, t) {
            Ok(d) => match transform_spec(d, t) {
                Ok(l) => gen(l, standalone, t),
                Err(e) => Err(e),
            },
            Err(e) => Err(e),
        },
        Err(e) => Err(e),
    }
}

/// A compiled module ends by returning the root ScreenGui; a standalone
/// script ends by mounting it into the player's GUI.
pub proof fn law_compiled_ending(evs: Seq<SEvent>, css: Seq<char>, standalone: bool, t: STable)
    ensures
        compile_spec(evs, css, standalone, t) matches Ok(s) ==> {
            let tail = if standalone {
                "\n-- === Mount to PlayerGui ===\nroot.Parent = playerGui\n"@
            } else {
                "\nreturn root\n"@
            };
            &&& s.len() >= tail.len()
            &&& s.skip(s.len() - tail.len()) == tail
        },
{
    if let Ok(o) = parse_events_spec(evs) {
        if let Ok(d) = resolve_spec(start_tree(o), css, t) {
            if let Ok(l) = transform_spec(d, t) {
                law_generated_ending(l, standalone, t);
            }
        }
    }
}

/// A run stops for a number only when the table lacks it: with a table that
/// answers every number the run asks for, compiling returns the Luau text,
/// unless an element or instance counter overflows or a three-byte color code
/// would be cut inside a character.
pub proof fn law_answered_run_succeeds(evs: Seq<SEvent>, css: Seq<char>, standalone: bool, t: STable)
    ensures
        asks_fresh(t, compile_spec(evs, css, standalone, t)),
        compile_spec(evs, css, standalone, t) matches Err(e) ==> e is Overflow || e is CharBoundary
            || (e matches SHalt::Need(op, x) && lookup(t, op, x) is None),
{
    law_document_asks_nothing(evs);
    if let Ok(o) = parse_events_spec(evs) {
        lemma_resolve_fresh(start_tree(o), css, t);
        if let Ok(d) = resolve_spec(start_tree(o), css, t) {
            lemma_transform_fresh(d, t);
            if let Ok(l) = transform_spec(d, t) {
                law_generate_answered(l, standalone, t);
            }
        }
    }
}

/// Compiles HTML and CSS into a Luau module that returns the root ScreenGui.
pub fn compile(html: &str, css: &str, t: &NumTable) -> (r: Result<String, Halt>)
    ensures
        fresh_err(t@, r),
        resv(r) == compile_spec(html_events(html@), css@, false, t@),
{
    compile_internal(html, css, false, t)
}

/// Compiles HTML and CSS into a standalone Luau script.
pub fn compile_standalone(html: &str, css: &str, t: &NumTable) -> (r: Result<String, Halt>)
    ensures
        fresh_err(t@, r),
        resv(r) == compile_spec(html_events(html@), css@, true, t@),
{
    compile_internal(html, css, true, t)
}

fn compile_internal(html: &str, css: &str, standalone: bool, t: &NumTable) -> (r: Result<
    String,
    Halt,
>)
    ensures
        fresh_err(t@, r),
        resv(r) == compile_spec(html_events(html@), css@, standalone, t@),
{
    let mut dom = match parse(html)? {
        Some(n) => n,
        None => LuauNode::new("Frame", "root"),
    };
    resolve(&mut dom, css, t)?;
    let laid_out = transform(dom, t)?;
    if standalone {
        generate_standalone(&laid_out, t)
    } else {
        generate(&laid_out, t)
    }
}

} // verus!
