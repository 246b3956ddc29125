use hluau::codegen::{collect_handlers, escape_lua_string, generate, map_property_to_luau, parse_easing};
use hluau::css::parse as parse_css;
use hluau::dom::{LuauNode, PropMap};
use hluau::html::{
    color_from_style, css_color_to_hex, document_v, instance_type_from_tag, is_inline_formatting,
    is_text_container, parse as parse_html, parse_events, parse_inline_style, traverse, HtmlEvent,
    HtmlKind, HtmlNode,
};
use hluau::layout::transform;
use hluau::mapping::{color_to_luau, map_css_to_luau, to_udim2_x, to_udim2_y};
use hluau::num::{Halt, NumOp, NumTable};
use hluau::resolver::{resolve, selector_matches};

fn cv(s: &str) -> Vec<char> {
    s.chars().collect()
}

fn st(v: Vec<char>) -> String {
    v.into_iter().collect()
}

fn answer(op: NumOp, text: &str) -> String {
    let x: f32 = text.parse().unwrap_or(0.0);
    match op {
        NumOp::Show => format!("{}", x),
        NumOp::Percent => format!("{}", x / 100.0),
        NumOp::Truncate => format!("{}", x as i32),
        NumOp::Complement => format!("{}", 1.0 - x),
        NumOp::Channel => format!("{}", (x / 255.0).min(1.0).max(0.0)),
        NumOp::NearFifty => format!("{}", (x - 50.0).abs() < 1.0),
    }
}

fn solve<T>(f: impl Fn(&NumTable) -> Result<T, Halt>) -> Result<T, Halt> {
    let mut t = NumTable::new();
    loop {
        match f(&t) {
            Err(Halt::Need(req)) => {
                let v = answer(req.op, &req.text);
                t.add(req.op, req.text, v);
            }
            other => return other,
        }
    }
}

fn get(m: &PropMap, k: &str) -> Option<String> {
    m.get(k).map(st)
}

#[test]
fn escape_quotes_backslashes_and_controls() {
    assert_eq!(escape_lua_string("a\"b\\c\nd\re\tf"), "\"a\\\"b\\\\c\\nd\\re\\tf\"");
    assert_eq!(escape_lua_string(""), "\"\"");
    assert_eq!(escape_lua_string("héllo"), "\"héllo\"");
}

#[test]
fn escape_reads_back_through_a_lua_reader() {
    let s = "say \"hi\"\\\n\tend";
    let lit = escape_lua_string(s);
    let inner: Vec<char> = lit.chars().collect();
    assert_eq!(inner[0], '"');
    let mut out = String::new();
    let mut i = 1;
    while inner[i] != '"' {
        assert!(inner[i] != '\n' && inner[i] != '\r');
        if inner[i] == '\\' {
            let d = match inner[i + 1] {
                'n' => '\n',
                'r' => '\r',
                't' => '\t',
                c => c,
            };
            out.push(d);
            i += 2;
        } else {
            out.push(inner[i]);
            i += 1;
        }
    }
    assert_eq!(i, inner.len() - 1);
    assert_eq!(out, s);
}

#[test]
fn easing_names_map_to_enums() {
    let (s, d) = parse_easing(&cv("ease-in-out"));
    assert_eq!(st(s), "Enum.EasingStyle.Quad");
    assert_eq!(st(d), "Enum.EasingDirection.Out");
    let (s, d) = parse_easing(&cv("easeInOutBack"));
    assert_eq!(st(s), "Enum.EasingStyle.Back");
    assert_eq!(st(d), "Enum.EasingDirection.InOut");
    let (s, d) = parse_easing(&cv("ease-in"));
    assert_eq!(st(s), "Enum.EasingStyle.Quad");
    assert_eq!(st(d), "Enum.EasingDirection.In");
    let (s, _) = parse_easing(&cv("Elastic"));
    assert_eq!(st(s), "Enum.EasingStyle.Elastic");
    let (s, _) = parse_easing(&cv("circle"));
    assert_eq!(st(s), "Enum.EasingStyle.Circ");
}

#[test]
fn property_values_become_luau() {
    let t = NumTable::new();
    assert_eq!(map_property_to_luau("BorderSizePixel", " 3 ", &t).unwrap(), "3");
    assert_eq!(map_property_to_luau("Text", "hi", &t).unwrap(), "\"hi\"");
    assert_eq!(map_property_to_luau("Anything", "Color3.new(1, 0, 0)", &t).unwrap(), "Color3.new(1, 0, 0)");
    assert_eq!(map_property_to_luau("Visible", "false", &t).unwrap(), "false");
    assert_eq!(map_property_to_luau("RichText", "yes", &t).unwrap(), "yes");
    assert_eq!(map_property_to_luau("textsize", "big", &t).unwrap(), "\"big\"");
    let r = solve(|t| map_property_to_luau("BackgroundTransparency", "0.50", t)).unwrap();
    assert_eq!(r, "0.5");
}

#[test]
fn luau_expressions_pass_through_any_key() {
    let t = NumTable::new();
    for v in ["UDim2.new(0, 1, 0, 2)", "UDim.new(0, 4)", "Vector2.new(0.5, 0.5)", "Enum.Font.Gotham", "true"] {
        assert_eq!(map_property_to_luau("TextSize", v, &t).unwrap(), v);
    }
}

#[test]
fn selectors_match_ids_classes_and_tags() {
    let mut n = LuauNode::new("TextButton", "go");
    n.set_property("class", "btn  primary");
    n.set_property("id", "start");
    assert!(selector_matches("#start", &n));
    assert!(selector_matches(" #go ", &n));
    assert!(selector_matches(".primary", &n));
    assert!(!selector_matches(".prim", &n));
    assert!(selector_matches("button", &n));
    assert!(selector_matches("INPUT", &n));
    assert!(selector_matches("textbutton", &n));
    assert!(!selector_matches("div", &n));
}

#[test]
fn css_parser_skips_at_rules_and_empty_selectors() {
    let rules = parse_css("a { color: red; } @media x { b { c: d } } .x, , .y { k : v ; k: w }");
    assert_eq!(rules.len(), 2);
    assert_eq!(rules[0].selectors, vec!["a".to_string()]);
    assert_eq!(get(&rules[0].declarations, "color"), Some("red".to_string()));
    assert_eq!(rules[1].selectors, vec![".x".to_string(), ".y".to_string()]);
    assert_eq!(rules[1].declarations.len(), 1);
    assert_eq!(get(&rules[1].declarations, "k"), Some("w".to_string()));
    assert!(parse_css("   ").is_empty());
}

#[test]
fn block_without_selector_is_dropped() {
    assert!(parse_css("{ color: red; }").is_empty());
    let rules = parse_css("{ color: red } a { b: c } ,{x:y}");
    assert_eq!(rules.len(), 1);
    assert_eq!(rules[0].selectors, vec!["a".to_string()]);
    assert_eq!(get(&rules[0].declarations, "b"), Some("c".to_string()));
}

#[test]
fn hex_codes_and_rgb_become_six_digit_hex() {
    assert_eq!(st(css_color_to_hex(&cv("#abc")).unwrap()), "#aabbcc");
    assert_eq!(st(css_color_to_hex(&cv(" #ABC ")).unwrap()), "#aabbcc");
    assert_eq!(st(css_color_to_hex(&cv("##xyz")).unwrap()), "#000000");
    assert_eq!(st(css_color_to_hex(&cv("#12345")).unwrap()), "#12345");
    assert_eq!(st(css_color_to_hex(&cv("rgb(255, 0, 10)")).unwrap()), "#ff000a");
    assert_eq!(st(css_color_to_hex(&cv("rgb(300, 1, 2)")).unwrap()), "#000000");
    assert_eq!(st(css_color_to_hex(&cv("red")).unwrap()), "#000000");
    assert!(matches!(css_color_to_hex(&cv("#é1")), Err(Halt::CharBoundary)));
}

#[test]
fn inline_style_later_declarations_win() {
    let m = parse_inline_style(&cv("color: red; background-color : blue;;bad; color:green"));
    assert_eq!(m.len(), 2);
    assert_eq!(get(&m, "color"), Some("green".to_string()));
    assert_eq!(get(&m, "background-color"), Some("blue".to_string()));
    assert_eq!(color_from_style(&m).map(st), Some("green".to_string()));
    let only_bg = parse_inline_style(&cv("background-color: #fff"));
    assert_eq!(color_from_style(&only_bg).map(st), Some("#fff".to_string()));
    assert_eq!(color_from_style(&parse_inline_style(&cv("width: 1px"))), None);
}

#[test]
fn tags_map_to_instance_classes() {
    assert_eq!(st(instance_type_from_tag(&cv("BUTTON"), &None)), "TextButton");
    assert_eq!(st(instance_type_from_tag(&cv("section"), &None)), "Frame");
    assert_eq!(st(instance_type_from_tag(&cv("H3"), &None)), "TextLabel");
    assert_eq!(st(instance_type_from_tag(&cv("input"), &Some(cv("Checkbox")))), "TextButton");
    assert_eq!(st(instance_type_from_tag(&cv("input"), &Some(cv("text")))), "TextBox");
    assert_eq!(st(instance_type_from_tag(&cv("input"), &None)), "TextBox");
    assert_eq!(st(instance_type_from_tag(&cv("img"), &None)), "ImageLabel");
    assert_eq!(st(instance_type_from_tag(&cv("imgbutton"), &None)), "ImageButton");
    assert_eq!(st(instance_type_from_tag(&cv("gui"), &None)), "ScreenGui");
    assert_eq!(st(instance_type_from_tag(&cv("custom"), &None)), "Frame");
    assert!(is_text_container(&cv("Label")));
    assert!(!is_text_container(&cv("div")));
    assert!(is_inline_formatting(&cv("B")));
    assert!(!is_inline_formatting(&cv("p")));
}

#[test]
fn html_tree_numbers_elements_in_document_order() {
    let root = parse_html("<div><span>a</span><div></div></div>").unwrap().unwrap();
    assert_eq!(root.instance_type, "Frame");
    assert_eq!(root.name, "body_1");
    assert_eq!(root.children.len(), 1);
    let div = &root.children[0];
    assert_eq!(div.name, "div_2");
    assert_eq!(div.children.len(), 2);
    assert_eq!(div.children[0].instance_type, "TextLabel");
    assert_eq!(div.children[0].name, "span_3");
    assert_eq!(get(&div.children[0].properties, "Text"), Some("a".to_string()));
    assert_eq!(get(&div.children[0].properties, "RichText"), Some("true".to_string()));
    assert_eq!(div.children[1].name, "div_4");
}

#[test]
fn html_attributes_become_properties() {
    let html = "<p id=\"t\" class=\"big note\" style=\"color: red\">Hello <b>World</b></p>\
                <input type=\"password\" placeholder=\"Secret\"><textarea></textarea>\
                <img src=\"rbxassetid://1\" data-transition=\"opacity 1s\">";
    let root = parse_html(html).unwrap().unwrap();
    assert_eq!(root.children.len(), 4);
    let p = &root.children[0];
    assert_eq!(p.name, "t");
    assert_eq!(p.children.len(), 0);
    assert_eq!(get(&p.properties, "id"), Some("t".to_string()));
    assert_eq!(get(&p.properties, "class"), Some("big note".to_string()));
    assert_eq!(get(&p.properties, "color"), Some("red".to_string()));
    assert_eq!(get(&p.properties, "Text"), Some("Hello <b>World</b>".to_string()));
    let input = &root.children[1];
    assert_eq!(input.instance_type, "TextBox");
    assert_eq!(get(&input.properties, "ClearTextOnFocus"), Some("false".to_string()));
    assert_eq!(get(&input.properties, "PlaceholderText"), Some("Secret".to_string()));
    assert_eq!(get(&root.children[2].properties, "MultiLine"), Some("true".to_string()));
    let img = &root.children[3];
    assert_eq!(img.instance_type, "ImageLabel");
    assert_eq!(get(&img.properties, "Image"), Some("rbxassetid://1".to_string()));
    assert_eq!(get(&img.properties, "data-transition"), Some("opacity 1s".to_string()));
}

#[test]
fn counter_at_its_limit_stops_the_walk() {
    let n = HtmlNode { kind: HtmlKind::Element("div".to_string(), Vec::new()), children: Vec::new() };
    assert!(matches!(traverse(&n, u32::MAX), Err(Halt::Overflow)));
    let (node, c) = traverse(&n, 41).unwrap();
    assert_eq!(node.unwrap().name, "div_42");
    assert_eq!(c, 42);
    let text = HtmlNode { kind: HtmlKind::Text("x".to_string()), children: Vec::new() };
    let (none, c) = traverse(&text, 7).unwrap();
    assert!(none.is_none());
    assert_eq!(c, 7);
}

#[test]
fn sizes_and_colors_map_to_udim2_and_color3() {
    assert_eq!(solve(|t| to_udim2_x("50%", t)).unwrap(), "UDim2.fromScale(0.5, 0)");
    assert_eq!(solve(|t| to_udim2_x(" 120px", t)).unwrap(), "UDim2.fromOffset(120, 0)");
    assert_eq!(solve(|t| to_udim2_x("10vw", t)).unwrap(), "UDim2.new(0.1, 0, 0, 0)");
    assert_eq!(solve(|t| to_udim2_x("auto", t)).unwrap(), "UDim2.fromScale(0, 0)");
    assert_eq!(solve(|t| to_udim2_y("abc%", t)).unwrap(), "UDim2.fromScale(0, 0)");
    assert_eq!(solve(|t| to_udim2_y("25vh", t)).unwrap(), "UDim2.new(0, 0, 0.25, 0)");
    assert_eq!(solve(|t| color_to_luau("#abc", t)).unwrap(), "Color3.fromHex(\"aabbcc\")");
    assert_eq!(solve(|t| color_to_luau("rgb(255, 0, 510)", t)).unwrap(), "Color3.new(1, 0, 1)");
    assert_eq!(solve(|t| color_to_luau("var(--primary-color)", t)).unwrap(), "Theme.PrimaryColor");
    assert_eq!(solve(|t| color_to_luau("blue", t)).unwrap(), "Color3.new(0, 0, 0)");
}

#[test]
fn css_declarations_map_to_luau_properties() {
    let mut m = PropMap::new();
    m.insert("background-color", "#fff");
    m.insert("opacity", "0.25");
    m.insert("font-size", "18px");
    m.insert("display", "none");
    m.insert("Custom", "x");
    let out = solve(|t| map_css_to_luau(&m, t)).unwrap();
    assert_eq!(get(&out, "BackgroundColor3"), Some("Color3.fromHex(\"ffffff\")".to_string()));
    assert_eq!(get(&out, "BackgroundTransparency"), Some("0.75".to_string()));
    assert_eq!(get(&out, "TextSize"), Some("18".to_string()));
    assert_eq!(get(&out, "Visible"), Some("false".to_string()));
    assert_eq!(get(&out, "Custom"), Some("x".to_string()));
    assert_eq!(out.len(), 5);
}

#[test]
fn resolve_and_transform_keep_the_tree() {
    let mut root = LuauNode::new("Frame", "root");
    let mut child = LuauNode::new("TextLabel", "label");
    child.set_property("class", "title");
    root.add_child(child);
    solve(|t| {
        let mut r = LuauNode::new("Frame", "root");
        let mut c = LuauNode::new("TextLabel", "label");
        c.set_property("class", "title");
        r.add_child(c);
        resolve(&mut r, ".title { border-radius: 50%; height: 20px }", t)?;
        let out = transform(r, t)?;
        assert_eq!(out.instance_type, "Frame");
        assert_eq!(out.children.len(), 1);
        let c = &out.children[0];
        assert_eq!(c.name, "label");
        assert_eq!(c.helpers.len(), 1);
        assert_eq!(c.helpers[0].instance_type, "UICorner");
        assert_eq!(get(&c.helpers[0].properties, "CornerRadius"), Some("UDim.new(0.5, 0)".to_string()));
        assert_eq!(get(&c.properties, "Size"), Some("UDim2.new(0, 0, 0, 20)".to_string()));
        assert_eq!(get(&c.properties, "class"), None);
        assert_eq!(get(&out.properties, "Size"), Some("UDim2.new(1, 0, 1, 0)".to_string()));
        Ok(())
    })
    .unwrap();
    assert_eq!(root.children.len(), 1);
}

#[test]
fn handlers_are_collected_once_in_tree_order() {
    let mut root = LuauNode::new("Frame", "root");
    let mut a = LuauNode::new("TextButton", "a");
    a.set_property("data-onclick", "open");
    let mut b = LuauNode::new("TextButton", "b");
    b.set_property("data-onclick", "close");
    let mut c = LuauNode::new("TextButton", "c");
    c.set_property("data-onclick", "open");
    b.add_child(c);
    root.add_child(a);
    root.add_child(b);
    assert_eq!(collect_handlers(&root), vec!["open".to_string(), "close".to_string()]);
}

#[test]
fn generate_emits_one_node() {
    let n = LuauNode::new("Frame", "root");
    let out = generate(&n, &NumTable::new()).unwrap();
    assert!(out.ends_with("\n-- === UI Tree ===\n-- Frame: root\nlocal frame_1 = Instance.new(\"Frame\")\nframe_1.Parent = root\nframe_1.Name = \"root\"\n\nreturn root\n"));
}

#[test]
fn property_map_reads_back_writes() {
    let mut m = PropMap::new();
    m.insert("a", "1");
    m.insert("b", "2");
    m.insert("a", "3");
    assert_eq!(m.len(), 2);
    assert_eq!(get(&m, "a"), Some("3".to_string()));
    assert_eq!(get(&m, "b"), Some("2".to_string()));
    m.remove("a");
    assert_eq!(get(&m, "a"), None);
    assert_eq!(get(&m, "b"), Some("2".to_string()));
    assert!(!m.contains_key("a"));
}

#[test]
fn every_text_container_is_a_text_instance() {
    for tag in ["p", "SPAN", "h1", "h2", "h3", "h4", "h5", "h6", "label", "button", "A"] {
        assert!(is_text_container(&cv(tag)));
        let it = st(instance_type_from_tag(&cv(tag), &Some(cv("checkbox"))));
        assert!(it == "TextLabel" || it == "TextButton", "{} gave {}", tag, it);
    }
}

#[test]
fn each_node_and_helper_gets_one_variable() {
    let mut root = LuauNode::new("Frame", "root");
    let mut corner = LuauNode::new("UICorner", "UICorner");
    corner.set_property("CornerRadius", "UDim.new(0, 4)");
    root.add_helper(corner);
    root.add_child(LuauNode::new("TextLabel", "a"));
    root.add_child(LuauNode::new("TextLabel", "b"));
    let out = generate(&root, &NumTable::new()).unwrap();
    assert!(out.contains("local frame_1 = Instance.new(\"Frame\")\n"));
    assert!(out.contains("-- rounded corners\nlocal uicorner_2 = Instance.new(\"UICorner\")\nuicorner_2.Parent = frame_1\nuicorner_2.CornerRadius = UDim.new(0, 4)\n"));
    assert!(out.contains("    local textlabel_3 = Instance.new(\"TextLabel\")\n    textlabel_3.Parent = frame_1\n    textlabel_3.Name = \"a\"\n"));
    assert!(out.contains("    local textlabel_4 = Instance.new(\"TextLabel\")\n"));
    assert_eq!(out.matches(" = Instance.new(").count(), 6);
}

fn el(name: &str) -> HtmlEvent {
    HtmlEvent::Start(HtmlKind::Element(name.to_string(), Vec::new()))
}

#[test]
fn walk_roots_at_body_then_html_then_div_then_any_element() {
    let text = |s: &str| HtmlEvent::Start(HtmlKind::Text(s.to_string()));
    let evs = vec![
        HtmlEvent::Start(HtmlKind::Other),
        el("html"),
        el("section"),
        text("x"),
        HtmlEvent::End,
        HtmlEvent::End,
        el("body"),
        el("label"),
        text("hi"),
        HtmlEvent::End,
        HtmlEvent::End,
        HtmlEvent::End,
        HtmlEvent::End,
    ];
    let root = parse_events(&evs).unwrap().unwrap();
    assert_eq!(root.name, "body_1");
    assert_eq!(root.children.len(), 1);
    assert_eq!(root.children[0].name, "label_2");
    assert_eq!(get(&root.children[0].properties, "Text"), Some("hi".to_string()));

    let no_body = vec![el("html"), el("span"), HtmlEvent::End, HtmlEvent::End];
    let root = parse_events(&no_body).unwrap().unwrap();
    assert_eq!(root.name, "html_1");
    assert_eq!(root.children[0].name, "span_2");

    let only_custom = vec![HtmlEvent::Start(HtmlKind::Other), el("x-card"), HtmlEvent::End, HtmlEvent::End];
    let root = parse_events(&only_custom).unwrap().unwrap();
    assert_eq!(root.instance_type, "Frame");
    assert_eq!(root.name, "x-card_1");

    let no_elements = vec![HtmlEvent::Start(HtmlKind::Other), text("t"), HtmlEvent::End, HtmlEvent::End];
    assert!(parse_events(&no_elements).unwrap().is_none());
}

#[test]
fn unbalanced_walk_still_builds_a_tree() {
    let evs = vec![el("div"), el("p"), HtmlEvent::End];
    let doc = document_v(&evs);
    assert_eq!(doc.len(), 1);
    assert_eq!(doc[0].children.len(), 1);
    let extra_end = vec![HtmlEvent::End, el("div")];
    assert_eq!(document_v(&extra_end).len(), 0);
}

fn map1(k: &str, v: &str) -> PropMap {
    let mut m = PropMap::new();
    m.insert(k, v);
    solve(|t| map_css_to_luau(&m, t)).unwrap()
}

#[test]
fn single_declarations_map_exactly() {
    assert_eq!(get(&map1("transform", "rotate(45deg)"), "Rotation"), Some("45".to_string()));
    assert_eq!(get(&map1("anchor-point", "50% 100%"), "AnchorPoint"), Some("Vector2.new(0.5, 1)".to_string()));
    assert_eq!(get(&map1("anchor-point", ""), "AnchorPoint"), Some("Vector2.new(0.005, 0.005)".to_string()));
    assert_eq!(get(&map1("text-align", "Center"), "TextXAlignment"), Some("Enum.TextXAlignment.Center".to_string()));
    assert_eq!(get(&map1("vertical-align", "bottom"), "TextYAlignment"), Some("Enum.TextYAlignment.Bottom".to_string()));
    assert_eq!(get(&map1("object-fit", "cover"), "ScaleType"), Some("Enum.ScaleType.Crop".to_string()));
    assert_eq!(get(&map1("gap", " 8px"), "LayoutGap"), Some("0".to_string()));
    assert_eq!(get(&map1("row-gap", "8px"), "LayoutGap"), Some("8".to_string()));
    assert_eq!(get(&map1("border", "2.9px"), "BorderSizePixel"), Some("2".to_string()));
    assert_eq!(get(&map1("image-transparency", "0.3"), "ImageTransparency"), Some("0.3".to_string()));
    assert_eq!(get(&map1("font-family", " Gotham Bold "), "Font"), Some("Enum.Font.GothamBold".to_string()));
    assert_eq!(get(&map1("overflow", "hidden"), "ClipsDescendants"), Some("true".to_string()));
    assert_eq!(map1("overflow", "auto").len(), 0);
    assert_eq!(get(&map1("min-height", "10px"), "SizeY"), Some("UDim2.fromOffset(0, 10)".to_string()));
    assert_eq!(get(&map1("automatic-size", "XY"), "AutomaticSize"), Some("Enum.AutomaticSize.XY".to_string()));
    assert_eq!(get(&map1("display", "inline-flex"), "display"), Some("inline-flex".to_string()));
    assert_eq!(get(&map1("COLOR", "rgb(0, 255, 0)"), "TextColor3"), Some("Color3.new(0, 1, 0)".to_string()));
}

#[test]
fn counter_advances_once_per_node() {
    let leaf = |t: &str| HtmlNode { kind: HtmlKind::Element(t.to_string(), Vec::new()), children: Vec::new() };
    let text = HtmlNode { kind: HtmlKind::Text("hi".to_string()), children: Vec::new() };
    let p = HtmlNode { kind: HtmlKind::Element("p".to_string(), Vec::new()), children: vec![leaf("b"), text] };
    let n = HtmlNode {
        kind: HtmlKind::Element("div".to_string(), Vec::new()),
        children: vec![leaf("span"), p, HtmlNode { kind: HtmlKind::Other, children: Vec::new() }, leaf("i")],
    };
    let (node, c) = traverse(&n, 10).unwrap();
    let node = node.unwrap();
    assert_eq!(c, 14);
    assert_eq!(node.name, "div_11");
    assert_eq!(node.children.len(), 3);
    assert_eq!(node.children[0].name, "span_12");
    assert_eq!(node.children[1].name, "p_13");
    assert_eq!(node.children[1].children.len(), 0);
    assert_eq!(node.children[2].name, "i_14");
}

#[test]
fn float_literal_syntax_matches_the_float_parser() {
    let cases = [
        "0", "1", "-1", "+1", "1.", ".5", "-.5", "+.5", ".", "-", "+", "", "1e5", "1E5", "1e+5", "1e-5",
        "1e", "1e+", "e5", ".e5", "1.5e3", "inf", "-inf", "+Inf", "INFINITY", "infinity", "infinit", "nan",
        "NaN", "-nan", "+NaN", "1_000", "0x10", " 1", "1 ", "1.2.3", "١", "12px", "5%", "1e10000", "00.0100",
    ];
    for s in cases {
        let expected = s.parse::<f32>().is_ok();
        assert_eq!(hluau::num::float_lit(&cv(s)), expected, "literal {:?}", s);
    }
}

#[test]
fn integer_syntax_matches_the_integer_parsers() {
    let cases = [
        "0", "7", "-7", "+7", "", "-", "+", "255", "256", "-0", "007", "2147483647", "2147483648",
        "-2147483648", "-2147483649", "1.0", " 1", "1_0", "99999999999999999999",
    ];
    for s in cases {
        assert_eq!(hluau::text::parse_i32_v(&cv(s)), s.parse::<i32>().ok(), "i32 {:?}", s);
        assert_eq!(hluau::text::parse_u8_v(&cv(s)), s.parse::<u8>().ok(), "u8 {:?}", s);
    }
}

#[test]
fn white_space_matches_the_standard_definition() {
    for u in 0u32..0x3100 {
        if let Some(c) = char::from_u32(u) {
            assert_eq!(hluau::text::ws(c), c.is_whitespace(), "char {:#x}", u);
        }
    }
    for c in ['\u{FEFF}', '\u{200B}', '\u{1F600}'] {
        assert_eq!(hluau::text::ws(c), c.is_whitespace());
    }
}
