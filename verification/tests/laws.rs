use hluau::codegen::{escape_lua_string, generate, generate_standalone};
use hluau::css::parse as parse_css;
use hluau::dom::{LuauNode, PropMap};
use hluau::layout::transform;
use hluau::mapping::{color_to_luau, map_css_to_luau};
use hluau::num::{Halt, NumOp, NumTable};
use hluau::resolver::resolve;

fn answer(op: NumOp, text: &str) -> String {
    let x: f32 = text.parse().unwrap_or(0.0);
    match op {
        NumOp::Show => format!("{}", x),
        NumOp::Percent => format!("{}", x / 100.0),
        NumOp::Truncate => format!("{}", x as i32),
        NumOp::Complement => format!("{}", 1.0 - x),
        NumOp::Channel => format!("{}", (x / 255.0).min(1.0).max(0.0)),
        NumOp::NearFifty => format!("{}", (x - 50.0).abs() < 1.0),
    }
}

fn solve<T>(f: impl Fn(&NumTable) -> Result<T, Halt>) -> Result<T, Halt> {
    let mut t = NumTable::new();
    loop {
        match f(&t) {
            Err(Halt::Need(req)) => {
                let v = answer(req.op, &req.text);
                t.add(req.op, req.text, v);
            }
            other => return other,
        }
    }
}

fn get(m: &PropMap, k: &str) -> Option<String> {
    m.get(k).map(|v| v.into_iter().collect())
}

fn entries(m: &PropMap) -> Vec<(String, String)> {
    (0..m.len())
        .map(|i| {
            let (k, v) = m.entry(i);
            (k.into_iter().collect(), v.into_iter().collect())
        })
        .collect()
}

fn no_size_axes(n: &LuauNode) -> bool {
    !n.properties.contains_key("SizeX")
        && !n.properties.contains_key("SizeY")
        && n.children.iter().all(no_size_axes)
}

fn no_class_or_id(n: &LuauNode) -> bool {
    !n.properties.contains_key("class")
        && !n.properties.contains_key("id")
        && n.children.iter().all(no_class_or_id)
}

#[test]
fn property_map_clone_and_default() {
    let mut m = PropMap::new();
    m.insert("b", "2");
    m.insert("a", "1");
    let c = m.clone();
    assert_eq!(entries(&c), entries(&m));
    assert_eq!(entries(&c), vec![("b".to_string(), "2".to_string()), ("a".to_string(), "1".to_string())]);
    assert_eq!(PropMap::default().len(), 0);
}

#[test]
fn node_clone_and_default() {
    let mut n = LuauNode::new("Frame", "root");
    n.set_property("Size", "UDim2.new(1, 0, 1, 0)");
    n.add_child(LuauNode::new("TextLabel", "a"));
    n.add_helper(LuauNode::new("UICorner", "UICorner"));
    n.source_tag = Some("<div>".to_string());
    let c = n.clone();
    assert_eq!(c.instance_type, "Frame");
    assert_eq!(c.name, "root");
    assert_eq!(get(&c.properties, "Size"), Some("UDim2.new(1, 0, 1, 0)".to_string()));
    assert_eq!(c.children.len(), 1);
    assert_eq!(c.children[0].name, "a");
    assert_eq!(c.helpers.len(), 1);
    assert_eq!(c.helpers[0].instance_type, "UICorner");
    assert_eq!(c.source_tag, Some("<div>".to_string()));
    let d = LuauNode::default();
    assert_eq!(d.instance_type, "");
    assert_eq!(d.name, "");
    assert_eq!(d.properties.len(), 0);
    assert!(d.children.is_empty() && d.helpers.is_empty() && d.source_tag.is_none());
}

#[test]
fn unknown_declarations_come_back_unchanged() {
    let mut m = PropMap::new();
    m.insert("My-Thing", "a b");
    m.insert("cursor", "pointer");
    m.insert("data-x", "1");
    let out = solve(|t| map_css_to_luau(&m, t)).unwrap();
    assert_eq!(entries(&out), entries(&m));
}

#[test]
fn mapping_never_adds_entries() {
    let mut m = PropMap::new();
    m.insert("height", "10px");
    m.insert("min-height", "5px");
    m.insert("width", "20px");
    let out = solve(|t| map_css_to_luau(&m, t)).unwrap();
    assert_eq!(out.len(), 2);
    assert_eq!(get(&out, "SizeY"), Some("UDim2.fromOffset(0, 10)".to_string()));
    assert_eq!(get(&out, "SizeX"), Some("UDim2.fromOffset(20, 0)".to_string()));
    let empty = PropMap::new();
    assert_eq!(solve(|t| map_css_to_luau(&empty, t)).unwrap().len(), 0);
}

#[test]
fn colors_have_three_forms() {
    assert_eq!(solve(|t| color_to_luau("red", t)).unwrap(), "Color3.new(0, 0, 0)");
    assert_eq!(solve(|t| color_to_luau("  hsl(1, 2, 3) ", t)).unwrap(), "Color3.new(0, 0, 0)");
    assert!(solve(|t| color_to_luau("#123456", t)).unwrap().starts_with("Color3.fromHex(\""));
    assert!(solve(|t| color_to_luau("rgb(1, 2, 3)", t)).unwrap().starts_with("Color3.new("));
    assert_eq!(solve(|t| color_to_luau("var(--accent)", t)).unwrap(), "Theme.Accent");
    assert!(matches!(solve(|t| color_to_luau("#aé", t)), Err(Halt::CharBoundary)));
}

#[test]
fn escaped_literal_has_no_raw_line_breaks() {
    let s = escape_lua_string("a\nb\rc\td\"e");
    assert!(s.len() >= 2 && s.starts_with('"') && s.ends_with('"'));
    assert!(!s.contains('\n') && !s.contains('\r') && !s.contains('\t'));
    assert_eq!(s, "\"a\\nb\\rc\\td\\\"e\"");
}

#[test]
fn transform_folds_width_and_height_into_size() {
    let out = solve(|t| {
        let mut r = LuauNode::new("Frame", "root");
        let mut c = LuauNode::new("Frame", "box");
        c.set_property("SizeX", "UDim2.new(0, 20, 0, 0)");
        let mut g = LuauNode::new("TextLabel", "text");
        g.set_property("SizeY", "UDim2.new(0, 0, 0, 10)");
        c.add_child(g);
        r.add_child(c);
        transform(r, t)
    })
    .unwrap();
    assert!(no_size_axes(&out));
    assert_eq!(get(&out.properties, "Size"), Some("UDim2.new(1, 0, 1, 0)".to_string()));
    assert_eq!(get(&out.children[0].properties, "Size"), Some("UDim2.new(0, 20, 1, 0)".to_string()));
    assert_eq!(
        get(&out.children[0].children[0].properties, "Size"),
        Some("UDim2.new(0, 0, 0, 10)".to_string())
    );
}

#[test]
fn injection_prepends_helpers_and_consumes_keys() {
    let out = solve(|t| {
        let mut r = LuauNode::new("Frame", "root");
        r.add_helper(LuauNode::new("UIStroke", "old"));
        r.set_property("Padding", "4px");
        r.set_property("CornerRadius", "8px");
        r.set_property("FlexDirection", "column");
        r.set_property("LayoutGap", "6");
        let mut c = LuauNode::new("Frame", "grow");
        c.set_property("FlexGrow", "1");
        c.set_property("AspectRatio", "2");
        r.add_child(c);
        transform(r, t)
    })
    .unwrap();
    assert_eq!(out.instance_type, "Frame");
    assert_eq!(out.name, "root");
    assert_eq!(out.helpers.last().unwrap().name, "old");
    let kinds: Vec<&str> = out.helpers.iter().map(|h| h.instance_type.as_str()).collect();
    assert!(kinds.contains(&"UIPadding"));
    assert!(kinds.contains(&"UICorner"));
    assert!(kinds.contains(&"UIListLayout"));
    let added = &kinds[..kinds.len() - 1];
    for (i, a) in added.iter().enumerate() {
        assert!(!added[i + 1..].contains(a), "{} twice", a);
    }
    for k in ["Padding", "CornerRadius", "FlexDirection", "LayoutGap", "display"] {
        assert!(!out.properties.contains_key(k), "{}", k);
    }
    let c = &out.children[0];
    assert_eq!(c.name, "grow");
    assert!(!c.properties.contains_key("FlexGrow"));
    assert!(!c.properties.contains_key("AspectRatio"));
    let ckinds: Vec<&str> = c.helpers.iter().map(|h| h.instance_type.as_str()).collect();
    assert!(ckinds.contains(&"UIFlexItem"));
    assert!(ckinds.contains(&"UIAspectRatioConstraint"));
}

#[test]
fn resolve_drops_class_and_id() {
    let out = solve(|t| {
        let mut r = LuauNode::new("Frame", "root");
        r.set_property("id", "main");
        let mut c = LuauNode::new("TextLabel", "label");
        c.set_property("class", "title");
        c.set_property("ID", "x");
        r.add_child(c);
        resolve(&mut r, "#main { color: red } .title { z-index: 3 }", t)?;
        Ok(r)
    })
    .unwrap();
    assert!(no_class_or_id(&out));
    assert_eq!(get(&out.properties, "TextColor3"), Some("Color3.new(0, 0, 0)".to_string()));
    assert_eq!(get(&out.children[0].properties, "ZIndex"), Some("3".to_string()));
}

#[test]
fn parsed_text_is_trimmed_and_split() {
    let rules = parse_css("  a ,  b  { color :  red ; x : y : z ;; : w ; }");
    assert_eq!(rules.len(), 1);
    assert_eq!(rules[0].selectors, vec!["a".to_string(), "b".to_string()]);
    assert_eq!(
        entries(&rules[0].declarations),
        vec![("color".to_string(), "red".to_string()), ("x".to_string(), "y : z".to_string())]
    );
}

#[test]
fn one_stub_per_handler_in_order() {
    let mut root = LuauNode::new("Frame", "root");
    let mut a = LuauNode::new("TextButton", "a");
    a.set_property("data-onclick", "open");
    let mut b = LuauNode::new("TextButton", "b");
    b.set_property("data-onclick", "close");
    let mut c = LuauNode::new("TextButton", "c");
    c.set_property("data-onclick", "open");
    b.add_child(c);
    root.add_child(a);
    root.add_child(b);
    let s = generate_standalone(&root, &NumTable::new()).unwrap();
    assert_eq!(s.matches("function Controller.").count(), 2);
    let i = s.find("function Controller.open()\n").unwrap();
    let j = s.find("function Controller.close()\n").unwrap();
    assert!(i < j);
    let m = generate(&root, &NumTable::new()).unwrap();
    let tree = &m[m.find("-- === Root ScreenGui ===").unwrap()..m.len() - "\nreturn root\n".len()];
    assert!(s.ends_with(&format!("{}\n-- === Mount to PlayerGui ===\nroot.Parent = playerGui\n", tree)));
}

#[test]
fn emitted_node_opens_with_its_declaration() {
    let n = LuauNode::new("ImageLabel", "pic");
    let s = generate(&n, &NumTable::new()).unwrap();
    assert!(s.contains("-- === UI Tree ===\n-- ImageLabel: pic\nlocal imagelabel_1 = Instance.new(\"ImageLabel\")\n"));
    assert_eq!(s.matches("Instance.new(").count(), 3);
}

#[test]
fn answered_run_succeeds_and_asks_only_new_numbers() {
    let html = "<div style=\"width: 40%; opacity: 0.5\"><p>Hi</p></div>";
    let css = "p { font-size: 12px; height: 3vh }";
    let mut t = NumTable::new();
    let mut asked: Vec<(NumOp, String)> = Vec::new();
    let out = loop {
        match hluau::compile(html, css, &t) {
            Err(Halt::Need(req)) => {
                assert!(!asked.iter().any(|(op, x)| *op == req.op && *x == req.text), "asked twice");
                asked.push((req.op, req.text.clone()));
                let v = answer(req.op, &req.text);
                t.add(req.op, req.text, v);
            }
            other => break other,
        }
    };
    assert!(out.is_ok());
    assert!(!asked.is_empty());
}

#[test]
fn layout_reads_back_mapped_sizes() {
    let out = solve(|t| {
        let mut r = LuauNode::new("Frame", "root");
        let mut c = LuauNode::new("Frame", "box");
        c.set_property("class", "b");
        r.add_child(c);
        resolve(&mut r, ".b { width: 30vw; height: 12px }", t)?;
        transform(r, t)
    })
    .unwrap();
    assert_eq!(get(&out.children[0].properties, "Size"), Some("UDim2.new(0.3, 0, 0, 12)".to_string()));
    let out = solve(|t| {
        let mut r = LuauNode::new("Frame", "root");
        r.set_property("class", "b");
        resolve(&mut r, ".b { width: 25%; height: 50vh }", t)?;
        transform(r, t)
    })
    .unwrap();
    assert_eq!(get(&out.properties, "Size"), Some("UDim2.new(0.25, 0, 0.5, 0)".to_string()));
}
