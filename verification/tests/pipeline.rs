use hluau::num::{Halt, NumOp, NumTable};
use hluau::{compile, compile_standalone};

/// The number a request stands for, computed with `f32` as the transpiler does.
fn answer(op: NumOp, text: &str) -> String {
    let x: f32 = text.parse().unwrap_or(0.0);
    match op {
        NumOp::Show => format!("{}", x),
        NumOp::Percent => format!("{}", x / 100.0),
        NumOp::Truncate => format!("{}", x as i32),
        NumOp::Complement => format!("{}", 1.0 - x),
        NumOp::Channel => format!("{}", (x / 255.0).min(1.0).max(0.0)),
        NumOp::NearFifty => format!("{}", (x - 50.0).abs() < 1.0),
    }
}

/// Runs `f`, answering each number it asks for, until it finishes.
fn solve<T>(f: impl Fn(&NumTable) -> Result<T, Halt>) -> Result<T, Halt> {
    let mut t = NumTable::new();
    loop {
        match f(&t) {
            Err(Halt::Need(req)) => {
                let v = answer(req.op, &req.text);
                t.add(req.op, req.text, v);
            }
            other => return other,
        }
    }
}

const HEADER: &str = "-- ==========================================================\n-- Auto-generated Luau UI code\n-- Generated by hluau (HTML/CSS to Luau transpiler)\n-- Do not edit manually — regenerate from source HTML/CSS.\n-- ==========================================================\n\n";

const SERVICES: &str = "-- === Services ===\nlocal Players = game:GetService(\"Players\")\nlocal player = Players.LocalPlayer\nlocal playerGui = player:WaitForChild(\"PlayerGui\")\n\n-- === Controller ===\n-- Define your button/event handlers here.\nController = {}\n";

const ROOT: &str = "-- === Root ScreenGui ===\nlocal root = Instance.new(\"ScreenGui\")\nroot.Name = \"UI\"\nroot.ResetOnSpawn = false\nroot.IgnoreGuiInset = false\n";

const VIEWPORT: &str = "\n-- ============================================================\n-- Viewport Scaling\n-- Scales the entire UI proportionally based on screen resolution.\n-- Design base: 1920px wide. The UI will scale to fit any screen.\n-- ============================================================\ndo\n    local uiScale = Instance.new(\"UIScale\")\n    uiScale.Name = \"ViewportScale\"\n    uiScale.Parent = root\n\n    local camera = workspace.CurrentCamera\n    local BASE_WIDTH = 1920 -- design resolution width in pixels\n\n    local function updateScale()\n        local viewportSize = camera.ViewportSize\n        if viewportSize.X > 0 then\n            uiScale.Scale = viewportSize.X / BASE_WIDTH\n        end\n    end\n\n    -- Update scale on startup and whenever the viewport resizes\n    updateScale()\n    camera:GetPropertyChangedSignal(\"ViewportSize\"):Connect(updateScale)\nend\n";

const BODY: &str = "-- Frame: body_1\nlocal frame_1 = Instance.new(\"Frame\")\nframe_1.Parent = root\nframe_1.Name = \"body_1\"\nframe_1.Size = UDim2.new(1, 0, 1, 0)\n";

#[test]
fn empty_document_gives_full_size_body() {
    let out = solve(|t| compile("", "", t)).unwrap();
    let expected = format!("{}{}{}\n-- === UI Tree ===\n{}\nreturn root\n", HEADER, ROOT, VIEWPORT, BODY);
    assert_eq!(out, expected);
}

#[test]
fn id_rule_sets_percentage_width() {
    let out = solve(|t| compile("<div id=\"main\"></div>", "#main { width: 50%; }", t)).unwrap();
    let div = "    -- Frame: main\n    local frame_2 = Instance.new(\"Frame\")\n    frame_2.Parent = frame_1\n    frame_2.Name = \"main\"\n    frame_2.Size = UDim2.new(0.5, 0, 1, 0)\n";
    let expected = format!("{}{}{}\n-- === UI Tree ===\n{}{}\nreturn root\n", HEADER, ROOT, VIEWPORT, BODY, div);
    assert_eq!(out, expected);
}

#[test]
fn standalone_declares_and_connects_handlers() {
    let out = solve(|t| compile_standalone("<button data-onclick=\"go\"></button>", "", t)).unwrap();
    let stub = "function Controller.go()\n    -- TODO: add your logic\nend\n\n";
    let button = "    -- TextButton: button_2\n    local textbutton_2 = Instance.new(\"TextButton\")\n    textbutton_2.Parent = frame_1\n    textbutton_2.Name = \"button_2\"\n    -- Click handler: Controller.go()\n    textbutton_2.Activated:Connect(function()\n            if Controller[\"go\"] then\n                Controller[\"go\"]()\n            end\n    end)\n";
    let expected = format!(
        "{}{}{}{}{}\n-- === UI Tree ===\n{}{}\n-- === Mount to PlayerGui ===\nroot.Parent = playerGui\n",
        HEADER, SERVICES, stub, ROOT, VIEWPORT, BODY, button
    );
    assert_eq!(out, expected);
}

#[test]
fn module_output_returns_root() {
    let out = solve(|t| compile("<p>Hello</p><div></div>", "p { color: red; }", t)).unwrap();
    assert!(out.starts_with(HEADER));
    assert!(out.ends_with("\nreturn root\n"));
    assert!(out.contains("local textlabel_2 = Instance.new(\"TextLabel\")\n"));
    assert!(out.contains("    textlabel_2.Text = \"Hello\"\n"));
    assert!(out.contains("    textlabel_2.RichText = true\n"));
    assert!(out.contains("    local frame_3 = Instance.new(\"Frame\")\n"));
}

#[test]
fn rich_text_keeps_formatting_inside_text() {
    let html = "<p>Hi <b>there</b> <span style=\"color: #f00\">red</span></p>";
    let out = solve(|t| compile(html, "", t)).unwrap();
    assert!(out.contains("textlabel_2.Text = \"Hi <b>there</b> <font color=\\\"#ff0000\\\">red</font>\"\n"));
    assert!(!out.contains("Instance.new(\"TextLabel\")\n    textlabel_3"));
    assert!(!out.contains("_3 = Instance.new"));
}

#[test]
fn numbers_are_requested_from_the_table() {
    let r = compile("<div id=\"m\"></div>", "#m { width: 50%; }", &NumTable::new());
    match r {
        Err(Halt::Need(req)) => {
            assert_eq!(req.op, NumOp::Percent);
            assert_eq!(req.text, "50");
        }
        other => panic!("expected a number request, got {:?}", other),
    }
}

#[test]
fn multibyte_short_color_code_is_refused() {
    let r = solve(|t| compile("<p><span style=\"color:#é1\">x</span></p>", "", t));
    assert!(matches!(r, Err(Halt::CharBoundary)));
}

#[test]
fn css_rules_lose_to_inline_style() {
    let html = "<div id=\"a\" style=\"width: 10px\"></div>";
    let out = solve(|t| compile(html, "#a { width: 20px; }", t)).unwrap();
    assert!(out.contains("    frame_2.Size = UDim2.new(0, 10, 1, 0)\n"));
}

#[test]
fn flex_parent_gets_list_layout() {
    let html = "<div id=\"row\"><p>a</p></div>";
    let css = "#row { display: flex; flex-direction: column; gap: 8px; }";
    let out = solve(|t| compile(html, css, t)).unwrap();
    assert!(out.contains("    -- layout controller (flex arrangement)\n    local uilistlayout_3 = Instance.new(\"UIListLayout\")\n    uilistlayout_3.Parent = frame_2\n"));
    assert!(out.contains("    uilistlayout_3.FillDirection = Enum.FillDirection.Vertical\n"));
    assert!(out.contains("    uilistlayout_3.Padding = UDim.new(0, 8)\n"));
    assert!(out.contains("        textlabel_4.AutomaticSize = Enum.AutomaticSize.Y\n"));
    assert!(out.contains("        textlabel_4.LayoutOrder = 1\n"));
}

#[test]
fn helpers_and_transition_are_emitted() {
    let html = "<div data-transition=\"opacity 0.5s ease-in\" style=\"border-radius: 6px; padding: 4px 8px\"></div>";
    let out = solve(|t| compile(html, "", t)).unwrap();
    assert!(out.contains(
        "    -- rounded corners\n    local uicorner_3 = Instance.new(\"UICorner\")\n    uicorner_3.Parent = frame_2\n    uicorner_3.CornerRadius = UDim.new(0, 6)\n"
    ));
    assert!(out.contains("    -- inner padding\n    local uipadding_4 = Instance.new(\"UIPadding\")\n    uipadding_4.Parent = frame_2\n"));
    assert!(out.contains("    uipadding_4.PaddingLeft = UDim.new(0, 4)\n"));
    assert!(out.contains("    uipadding_4.PaddingRight = UDim.new(0, 8)\n"));
    assert!(out.contains("    uipadding_4.PaddingTop = UDim.new(0, 4)\n"));
    assert!(out.contains("    uipadding_4.PaddingBottom = UDim.new(0, 8)\n"));
    let tween = "    -- Transition: opacity 0.5s ease-in\n    do\n            local TweenService = game:GetService(\"TweenService\")\n            local tweenInfo = TweenInfo.new(0.5, Enum.EasingStyle.Quad, Enum.EasingDirection.In)\n            frame_2.AncestryChanged:Once(function()\n                    if frame_2.Parent then\n                        frame_2.BackgroundTransparency = 1\n                        local tween = TweenService:Create(frame_2, tweenInfo, { BackgroundTransparency = 0 })\n                        tween:Play()\n                    end\n            end)\n    end\n";
    assert!(out.contains(tween));
    assert!(!out.contains("frame_2.data-transition"));
}

#[test]
fn gradient_and_stroke_become_helpers() {
    let html = "<div id=\"g\"></div><div id=\"s\"></div>";
    let css = "#g { background: linear-gradient(90deg, #fff, #000); } #s { stroke: 2px #f00; }";
    let out = solve(|t| compile(html, css, t)).unwrap();
    assert!(out.contains("    -- background gradient\n    local uigradient_3 = Instance.new(\"UIGradient\")\n    uigradient_3.Parent = frame_2\n"));
    assert!(out.contains("    uigradient_3.Color = \"ColorSequence.new({ColorSequenceKeypoint.new(0, Color3.fromHex(\\\"ffffff\\\")), ColorSequenceKeypoint.new(1, Color3.fromHex(\\\"000000\\\"))})\"\n"));
    assert!(out.contains("    -- border stroke\n    local uistroke_5 = Instance.new(\"UIStroke\")\n    uistroke_5.Parent = frame_4\n"));
    assert!(out.contains("    uistroke_5.Thickness = \"2\"\n"));
    assert!(out.contains("    uistroke_5.Color = Color3.fromHex(\"ff0000\")\n"));
}

#[test]
fn grid_layout_sizes_cells() {
    let css = "#grid { display: grid; grid-cell-width: 50px; grid-padding: 4px; }";
    let out = solve(|t| compile("<div id=\"grid\"></div>", css, t)).unwrap();
    assert!(out.contains("    -- grid layout controller\n    local uigridlayout_3 = Instance.new(\"UIGridLayout\")\n    uigridlayout_3.Parent = frame_2\n"));
    assert!(out.contains("    uigridlayout_3.CellSize = UDim2.new(0, 50, 0, 100)\n"));
    assert!(out.contains("    uigridlayout_3.CellPadding = UDim2.new(0, 4, 0, 4)\n"));
}

#[test]
fn later_rules_override_earlier_ones() {
    let css = ".a { width: 10px; height: 5px } div { width: 20px }";
    let out = solve(|t| compile("<div class=\"a\"></div>", css, t)).unwrap();
    assert!(out.contains("    frame_2.Size = UDim2.new(0, 20, 0, 5)\n"));
}

#[test]
fn module_and_script_share_the_tree_code() {
    let html = "<div class=\"card\"><button data-onclick=\"buy\">Buy</button><p>Price</p></div>";
    let css = ".card { display: flex; padding: 2px; } button { width: 40%; }";
    let module = solve(|t| compile(html, css, t)).unwrap();
    let script = solve(|t| compile_standalone(html, css, t)).unwrap();
    let heading = "\n-- === UI Tree ===\n";
    let m = &module[module.find(heading).unwrap() + heading.len()..module.len() - "\nreturn root\n".len()];
    let tail = "\n-- === Mount to PlayerGui ===\nroot.Parent = playerGui\n";
    assert!(script.ends_with(tail));
    let s = &script[script.find(heading).unwrap() + heading.len()..script.len() - tail.len()];
    assert_eq!(m, s);
    assert!(script.contains("function Controller.buy()\n"));
    assert!(!module.contains("function Controller."));
}
