# hluau

An HTML/CSS to Roblox Luau UI transpiler, written in Verus. The HTML document
becomes a tree of Roblox UI instances, the CSS rules are resolved onto it,
layout helpers (UIListLayout, UIPadding, UICorner, ...) are injected, and Luau
code that builds the tree is generated, either as a module that returns the
root ScreenGui or as a standalone script with Controller stubs.

## Layout

- `src/` — the library. Every function carries a contract. Verus proves each one,
  except the few wrappers marked `#[verifier::external_body]` that call `std` or
  kuchiki: their contracts are trusted, not proved.
  - `text.rs` — character-sequence operations (trim, split, find, replace, ...).
  - `num.rs` — number requests (see below) and hex/decimal formatting.
  - `dom.rs` — the UI tree (`LuauNode`) and its insertion-ordered property map.
  - `html.rs` — the HTML front end: the parsed document walked into the UI tree.
  - `css.rs` — the style-sheet parser.
  - `resolver.rs` — CSS selectors matched against the tree.
  - `mapping.rs` — CSS declarations mapped to Roblox properties.
  - `layout.rs` — layout helpers and sizes.
  - `codegen.rs` — Luau code generation.
- `app/` — the command-line program (`hluau compile --html ... [--css ...]`).
- `tests/` — tests run against the compiled library.

## Numbers

The library holds no floating point. Wherever the transpiler reads a CSS
number and prints it back (`50%` becomes `0.5`), the library asks for that
number: a compilation that needs one stops with `Halt::Need(request)`, the
caller computes the answer with `f32` (see `app/numbers.rs`), adds it to the
`NumTable` and runs the compilation again. Everything else — which number is
asked for, what default stands in for an unreadable literal, where the answer
goes — is part of the verified library.
