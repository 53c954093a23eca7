use software_manager::cursor_control::InputReport;
use software_manager::visual_target::{
    apply_preview, automation_step_request, chain_delay_after, chain_step_options,
    close_window_result, color_pick_delay, close_window_script, close_window_title, default_visual_rules_file,
    delete_automation_template, effective_steps, effective_steps_without_templates,
    empty_visual_rules_file, ensure_template_state, fallback_after_script,
    fallback_after_script_error, finish_visual_input, localize_visual_message, message_result,
    new_template_id, normalize_match_type, physical_input_args, physical_input_json,
    physical_input_verdict, picked_screen_color, resolve_input_text, rule_to_step,
    sanitize_template_name, save_automation_steps, save_automation_template,
    script_result_json, set_active_automation_template, visual_chain_steps,
    visual_input_request, visual_result_from_report, visual_rule_request, visual_script_args,
    visual_script_opts, visual_script_outcome, visual_target_request, AutomationStep,
    AutomationTemplate, ChainStep, InputRequest, PhysicalInputResult, RuleChain, ScriptReport,
    StepRequest, VisualRule, VisualRulesFile,
};

fn step(id: &str, action: &str) -> AutomationStep {
    AutomationStep {
        id: id.to_string(),
        name: format!("step {id}"),
        action: action.to_string(),
        window_title: "WeGame".to_string(),
        match_type: "text".to_string(),
        match_value: "安装".to_string(),
        color_tolerance: 0,
        click: true,
        enabled: true,
        delay_ms: 1000,
        delay_unit: "ms".to_string(),
        time_after_step: false,
        last_measured_ms: 0,
        offset_x: 3,
        offset_y: -4,
        input_mode: "installBase".to_string(),
        input_text: String::new(),
    }
}

fn rule(id: &str) -> VisualRule {
    VisualRule {
        id: id.to_string(),
        name: format!("rule {id}"),
        window_title: "Setup".to_string(),
        match_type: "color".to_string(),
        match_value: "#FF0000".to_string(),
        color_tolerance: 30,
        click: false,
    }
}

fn ids(steps: &[AutomationStep]) -> Vec<String> {
    steps.iter().map(|s| s.id.clone()).collect()
}

fn located() -> software_manager::visual_target::VisualTargetResult {
    let mut r = message_result(true, Some("WeGame".to_string()), "完成".to_string());
    r.screen_x = Some(100);
    r.screen_y = Some(200);
    r
}

#[test]
fn new_files_have_a_default_template() {
    let f = default_visual_rules_file(7);
    assert_eq!(f.templates.len(), 1);
    assert_eq!(f.templates[0].id, "default");
    assert_eq!(f.templates[0].name, "默认模板");
    assert_eq!(f.templates[0].updated_at, 7);
    assert_eq!(f.active_template_id, "default");
    assert_eq!(new_template_id(1700000000123), "template-1700000000123");
    assert_eq!(sanitize_template_name("   "), "未命名模板");
    assert_eq!(sanitize_template_name(&"长".repeat(50)).chars().count(), 40);
    assert_eq!(sanitize_template_name("  A  "), "A");
}

#[test]
fn old_files_turn_rules_into_steps() {
    let mut f = empty_visual_rules_file();
    f.rules = vec![rule("r1"), rule("r2")];
    let steps = effective_steps_without_templates(&f);
    assert_eq!(ids(&steps), vec!["r1", "r2"]);
    assert_eq!(steps[0].delay_ms, 1000);
    assert_eq!(steps[0].action, "click");
    f.chains = vec![RuleChain {
        id: "c".into(),
        name: "C".into(),
        steps: vec![
            ChainStep { id: "s1".into(), rule_id: "r2".into(), delay_ms: 50 },
            ChainStep { id: "s2".into(), rule_id: "missing".into(), delay_ms: 0 },
        ],
    }];
    let steps = effective_steps_without_templates(&f);
    assert_eq!(ids(&steps), vec!["s1"]);
    assert_eq!(steps[0].match_value, "#FF0000");
    let s = rule_to_step(&rule("r9"), "x", 5);
    assert_eq!(s.input_mode, "installBase");
    assert_eq!(s.delay_unit, "ms");
}

#[test]
fn template_state_is_established_once() {
    let mut f = empty_visual_rules_file();
    f.steps = vec![step("a", "click")];
    ensure_template_state(&mut f, 5);
    assert_eq!(f.templates.len(), 1);
    assert_eq!(f.active_template_id, "default");
    assert_eq!(ids(&f.templates[0].steps), vec!["a"]);
    assert_eq!(ids(&effective_steps(&f)), ids(&f.steps));
    let before = (f.templates.len(), f.active_template_id.clone(), ids(&f.steps));
    ensure_template_state(&mut f, 99);
    assert_eq!((f.templates.len(), f.active_template_id.clone(), ids(&f.steps)), before);
    assert_eq!(f.templates[0].updated_at, 5);

    let mut g = empty_visual_rules_file();
    g.templates = vec![AutomationTemplate {
        id: "t1".into(),
        name: "T1".into(),
        steps: vec![step("x", "click")],
        updated_at: 1,
    }];
    g.active_template_id = "gone".into();
    ensure_template_state(&mut g, 2);
    assert_eq!(g.active_template_id, "t1");
    assert_eq!(ids(&g.steps), vec!["x"]);
}

#[test]
fn saved_templates_come_into_effect() {
    let mut f = default_visual_rules_file(1);
    save_automation_steps(&mut f, vec![step("a", "click")], 2);
    assert_eq!(ids(&effective_steps(&f)), vec!["a"]);
    assert_eq!(f.templates[0].updated_at, 2);

    let t = save_automation_template(&mut f, "  Night  ", vec![step("b", "click")], 3);
    assert_eq!(t.id, "template-3");
    assert_eq!(t.name, "Night");
    assert_eq!(f.active_template_id, "template-3");
    assert_eq!(ids(&effective_steps(&f)), vec!["b"]);

    let t2 = save_automation_template(&mut f, "night", vec![step("c", "click")], 4);
    assert_eq!(t2.id, "template-3");
    assert_eq!(f.templates.len(), 2);
    assert_eq!(ids(&effective_steps(&f)), vec!["c"]);

    match set_active_automation_template(&mut f, "default", 5) {
        Ok(steps) => assert_eq!(ids(&steps), vec!["a"]),
        Err(e) => panic!("{e}"),
    }
    assert_eq!(ids(&effective_steps(&f)), vec!["a"]);
    match set_active_automation_template(&mut f, "nope", 6) {
        Err(e) => assert_eq!(e, "找不到模板 nope"),
        Ok(_) => panic!("unknown template"),
    }
}

#[test]
fn deleting_templates_keeps_one() {
    let mut f = default_visual_rules_file(1);
    match delete_automation_template(&mut f, "default", 2) {
        Err(e) => assert_eq!(e, "至少保留一个模板"),
        Ok(_) => panic!("last template"),
    }
    save_automation_template(&mut f, "Other", vec![step("o", "click")], 3);
    match delete_automation_template(&mut f, "missing", 4) {
        Err(e) => assert_eq!(e, "找不到模板 missing"),
        Ok(_) => panic!("missing template"),
    }
    match delete_automation_template(&mut f, "template-3", 5) {
        Ok(ts) => {
            assert_eq!(ts.len(), 1);
            assert_eq!(ts[0].id, "default");
        }
        Err(e) => panic!("{e}"),
    }
    assert_eq!(f.active_template_id, "default");
    assert_eq!(ids(&f.steps), Vec::<String>::new());
}

#[test]
fn input_text_and_match_types() {
    assert_eq!(normalize_match_type("color"), "color");
    assert_eq!(normalize_match_type("point"), "point");
    assert_eq!(normalize_match_type("anything"), "text");
    assert_eq!(resolve_input_text("click", "custom", "x", "D:\\Apps"), Ok(None));
    assert_eq!(
        resolve_input_text("inputText", "installBase", "ignored", "D:\\Apps"),
        Ok(Some("D:\\Apps".to_string()))
    );
    assert_eq!(
        resolve_input_text("inputText", "custom", "  E:\\Games  ", "D:\\Apps"),
        Ok(Some("E:\\Games".to_string()))
    );
    assert_eq!(
        resolve_input_text("inputText", "custom", "  ", "D:\\Apps"),
        Err("输入路径不能为空".to_string())
    );
}

#[test]
fn step_requests() {
    let mut f = default_visual_rules_file(1);
    let mut close = step("close", "closeWindow");
    close.window_title = "Game".into();
    let mut typing = step("type", "inputText");
    typing.input_mode = "custom".into();
    typing.input_text = " E:\\WeGame ".into();
    save_automation_steps(&mut f, vec![step("a", "click"), close, typing], 2);
    match automation_step_request(&f, "a", true, "D:\\Apps") {
        Ok(StepRequest::Script(o)) => {
            assert_eq!(o.tolerance, 1);
            assert!(o.dry_run);
            assert_eq!(o.offset_y, -4);
            assert!(o.input_text.is_none());
        }
        _ => panic!("script"),
    }
    match automation_step_request(&f, "close", false, "D:\\Apps") {
        Ok(StepRequest::CloseWindow(t)) => assert_eq!(t, "Game"),
        _ => panic!("close"),
    }
    match automation_step_request(&f, "type", false, "D:\\Apps") {
        Ok(StepRequest::Script(o)) => assert_eq!(o.input_text.as_deref(), Some("E:\\WeGame")),
        _ => panic!("typing"),
    }
    match automation_step_request(&f, "zz", false, "D:\\Apps") {
        Err(e) => assert_eq!(e, "找不到步骤 zz"),
        _ => panic!("missing step"),
    }
}

#[test]
fn target_and_rule_requests() {
    match visual_target_request(None, "text", "  ", "", 5, true, false, None, None, None, None, "D:\\A") {
        Err(e) => assert_eq!(e, "请填写匹配文字或颜色"),
        Ok(_) => panic!("empty match"),
    }
    match visual_target_request(None, "point", "", "W", 0, true, false, Some(2), None, None, None, "D:\\A") {
        Ok(o) => {
            assert_eq!(o.action, "click");
            assert_eq!(o.match_type, "point");
            assert_eq!(o.tolerance, 1);
            assert_eq!(o.offset_x, 2);
            assert_eq!(o.offset_y, 0);
        }
        Err(e) => panic!("{e}"),
    }
    let rules = vec![rule("r1")];
    match visual_rule_request(&rules, "r1", true) {
        Ok(o) => {
            assert_eq!(o.match_type, "color");
            assert_eq!(o.tolerance, 30);
            assert!(!o.click);
        }
        Err(e) => panic!("{e}"),
    }
    match visual_rule_request(&rules, "r2", true) {
        Err(e) => assert!(e.contains("r2")),
        Ok(_) => panic!("missing rule"),
    }
}

#[test]
fn chains_run_their_rules_in_order() {
    let mut f = empty_visual_rules_file();
    f.rules = vec![rule("r1")];
    f.chains = vec![RuleChain {
        id: "c".into(),
        name: "C".into(),
        steps: vec![
            ChainStep { id: "s1".into(), rule_id: "r1".into(), delay_ms: 300 },
            ChainStep { id: "s2".into(), rule_id: "gone".into(), delay_ms: 0 },
        ],
    }];
    let steps = match visual_chain_steps(&f, "c") {
        Ok(s) => s,
        Err(e) => panic!("{e}"),
    };
    assert_eq!(steps.len(), 2);
    match visual_chain_steps(&f, "d") {
        Err(e) => assert_eq!(e, "找不到规则链 d"),
        Ok(_) => panic!("missing chain"),
    }
    assert!(chain_step_options(&f.rules, &steps[0], 0).is_ok());
    match chain_step_options(&f.rules, &steps[1], 1) {
        Err(e) => assert_eq!(e, "步骤 2 引用的规则 gone 不存在"),
        Ok(_) => panic!("missing rule"),
    }
    assert_eq!(chain_delay_after(300, 0, 2), 300);
    assert_eq!(chain_delay_after(300, 1, 2), 0);
    assert_eq!(chain_delay_after(0, 0, 2), 0);
}

#[test]
fn script_command_lines() {
    let o = visual_script_opts("click", "color", "#fff", "  WeGame  ", 24, true, true, -1, 2, None);
    assert_eq!(
        visual_script_args("C:\\s\\find.ps1", &o),
        vec![
            "-ExecutionPolicy", "Bypass", "-NoProfile", "-File", "C:\\s\\find.ps1",
            "--match-type", "color", "--match-value", "#fff", "--tolerance", "24",
            "--offset-x", "-1", "--offset-y", "2", "--window-title", "WeGame", "--dry-run",
        ]
    );
    let o = visual_script_opts("click", "text", "x", " ", 5, true, false, 0, 0, None);
    assert_eq!(visual_script_args("p.ps1", &o).len(), 15);
    assert_eq!(
        physical_input_args("p.ps1", 10, -20, true, Some("D:\\A"), Some(" W ")),
        vec![
            "-ExecutionPolicy", "Bypass", "-NoProfile", "-File", "p.ps1", "--physical-x", "10",
            "--physical-y", "-20", "--click", "--type-text", "D:\\A", "--window-title", "W",
        ]
    );
}

#[test]
fn script_output_is_read() {
    let out = "log line\r\nRESULT_JSON:{\"success\":true}\r\nRESULT_JSON:{\"second\":1}\n";
    assert_eq!(script_result_json(out), Some("{\"success\":true}".to_string()));
    assert_eq!(script_result_json("nothing\n"), None);
    assert_eq!(
        physical_input_json("progress\n  {\"moved\":true}\n"),
        Some("  {\"moved\":true}".to_string())
    );
    assert_eq!(
        physical_input_json("RESULT_JSON: {\"a\":1}"),
        Some(" {\"a\":1}".to_string())
    );
    assert_eq!(physical_input_json("no json"), None);
}

#[test]
fn messages_are_localized() {
    assert_eq!(localize_visual_message(Some("Moved and clicked.".into()), true), "已移动并点击");
    assert_eq!(localize_visual_message(Some("Target not found.".into()), false), "未找到匹配目标");
    assert_eq!(localize_visual_message(Some("other".into()), true), "other");
    assert_eq!(localize_visual_message(None, true), "完成");
    assert_eq!(localize_visual_message(None, false), "失败");
    let report = ScriptReport {
        success: true,
        raw_screen_x: Some(1),
        raw_screen_y: Some(2),
        offset_x: Some(0),
        offset_y: Some(0),
        screen_x: Some(1),
        screen_y: Some(2),
        window_left: None,
        window_top: None,
        window_width: None,
        window_height: None,
        window_title: Some("W".into()),
        detail: None,
        preview_image: None,
        window_handle: Some(77),
        message: Some("Mouse moved only.".into()),
    };
    let r = visual_result_from_report(report);
    assert_eq!(r.message, "已移动鼠标");
    assert_eq!(r.window_handle, Some(77));
}

#[test]
fn script_exit_without_report() {
    match visual_script_outcome(None, "  ", " boom ", false, Some(3)) {
        Err(e) => assert_eq!(e, "视觉定位脚本退出码 3: boom"),
        Ok(_) => panic!("failure"),
    }
    match visual_script_outcome(None, " out ", "err", false, None) {
        Err(e) => assert_eq!(e, "视觉定位脚本退出码 -1: out"),
        Ok(_) => panic!("failure"),
    }
    match visual_script_outcome(None, " fine ", "", true, Some(0)) {
        Ok(r) => assert!(r.success),
        Err(e) => panic!("{e}"),
    }
    match visual_script_outcome(Some(located()), "", "", false, Some(1)) {
        Ok(r) => assert_eq!(r.screen_x, Some(100)),
        Err(e) => panic!("{e}"),
    }
}

#[test]
fn input_requests_after_locating() {
    let r = located();
    assert!(matches!(visual_input_request(&r, "click", true, None, true), InputRequest::Preview));
    match visual_input_request(&r, "inputText", false, Some("  D:\\A "), false) {
        InputRequest::Physical { x, y, press, type_text, window_title } => {
            assert_eq!((x, y), (100, 200));
            assert!(press);
            assert_eq!(type_text.as_deref(), Some("D:\\A"));
            assert_eq!(window_title.as_deref(), Some("WeGame"));
        }
        _ => panic!("physical input"),
    }
    match visual_input_request(&r, "click", false, Some("x"), false) {
        InputRequest::Physical { press, type_text, .. } => {
            assert!(!press);
            assert!(type_text.is_none());
        }
        _ => panic!("move only"),
    }
    let mut missed = located();
    missed.success = false;
    assert!(matches!(visual_input_request(&missed, "click", true, None, false), InputRequest::Skip));
    let mut preview = located();
    apply_preview(&mut preview);
    assert_eq!(preview.message, "已找到坐标，但没有生成截图预览");
    preview.preview_image = Some("data".into());
    apply_preview(&mut preview);
    assert_eq!(preview.message, "已生成截图预览，请看红色标记");
}

#[test]
fn physical_input_verdicts() {
    let ps = PhysicalInputResult {
        moved: true,
        clicked: true,
        typed: false,
        cursor_x: Some(105),
        cursor_y: Some(195),
    };
    assert_eq!(physical_input_verdict(&ps, 100, 200, true, false), Ok("同进程PS点击 (100, 200)".to_string()));
    assert_eq!(
        physical_input_verdict(&ps, 100, 200, false, true),
        Err("鼠标未到位；目标 (100, 200)，当前 (105, 195)".to_string())
    );
    let far = PhysicalInputResult { cursor_x: Some(0), ..ps };
    assert!(physical_input_verdict(&far, 100, 200, true, false).is_err());
    let report = InputReport {
        success: true,
        method: "物理鼠标".into(),
        target_x: 100,
        target_y: 200,
        final_x: Some(100),
        final_y: Some(200),
    };
    assert_eq!(
        fallback_after_script(&report, 100, 200, true, "d".into()),
        (true, "Rust兜底点击 (100, 200)".to_string())
    );
    assert_eq!(
        fallback_after_script_error(&report, 100, 200),
        (true, "Rust物理鼠标 (100, 200)".to_string())
    );
    let failed = InputReport { success: false, final_x: None, ..report };
    assert_eq!(
        fallback_after_script(&failed, 1, 2, false, "script said no".into()),
        (false, "script said no".to_string())
    );
    assert_eq!(
        fallback_after_script_error(&failed, 1, 2),
        (false, "Rust物理输入失败 (1, 2)".to_string())
    );
    let mut r = located();
    finish_visual_input(&mut r, true, "同进程PS点击 (1, 2)".into());
    assert_eq!(r.message, "已通过同进程PS点击 (1, 2)");
    finish_visual_input(&mut r, false, "no".into());
    assert!(!r.success);
    assert_eq!(r.message, "no");
}

#[test]
fn closing_windows() {
    assert_eq!(close_window_title("   "), "WeGame");
    assert_eq!(close_window_title(" Game "), "Game");
    let script = close_window_script("It's");
    assert!(script.starts_with("\n$needle = 'It''s'\n"));
    assert!(script.ends_with("if ($matched.Count -eq 0) { exit 2 }\n"));
    let r = close_window_result("W".into(), true, Some(0), " matched=1;closed=1;killed=0 \n", "");
    assert_eq!(r.message, "已关闭目标窗口: matched=1;closed=1;killed=0");
    assert_eq!(r.window_title.as_deref(), Some("W"));
    let r = close_window_result("W".into(), false, Some(2), "", "");
    assert_eq!(r.message, "未找到目标窗口: W");
    let r = close_window_result("W".into(), false, Some(1), " out ", "  ");
    assert_eq!(r.message, "关闭目标窗口失败: out");
}

#[test]
fn picked_colors_are_hex() {
    match picked_screen_color(0x00AB_CDEF, 5, 6) {
        Ok(c) => {
            assert_eq!(c.hex, "#EFCDAB");
            assert_eq!((c.r, c.g, c.b), (0xEF, 0xCD, 0xAB));
            assert_eq!((c.screen_x, c.screen_y), (5, 6));
        }
        Err(e) => panic!("{e}"),
    }
    match picked_screen_color(0xFFFF_FFFF, 0, 0) {
        Err(e) => assert_eq!(e, "拾取颜色失败"),
        Ok(_) => panic!("invalid colour"),
    }
}

#[test]
fn closing_results_locate_nothing() {
    for r in [
        close_window_result("W".into(), true, Some(0), "ok", ""),
        close_window_result("W".into(), false, Some(2), "", ""),
    ] {
        assert!(r.raw_screen_x.is_none() && r.raw_screen_y.is_none());
        assert!(r.offset_x.is_none() && r.offset_y.is_none());
        assert!(r.screen_x.is_none() && r.screen_y.is_none());
        assert!(r.window_left.is_none() && r.window_top.is_none());
        assert!(r.window_width.is_none() && r.window_height.is_none());
        assert!(r.detail.is_none() && r.preview_image.is_none() && r.window_handle.is_none());
    }
}

#[test]
fn unparsed_script_output_locates_nothing() {
    match visual_script_outcome(None, " done ", "", true, Some(0)) {
        Ok(r) => {
            assert!(r.success);
            assert_eq!(r.message, "done");
            assert!(r.window_title.is_none());
            assert!(r.screen_x.is_none() && r.screen_y.is_none());
            assert!(r.raw_screen_x.is_none() && r.offset_x.is_none());
            assert!(r.window_left.is_none() && r.window_width.is_none());
            assert!(r.detail.is_none() && r.preview_image.is_none() && r.window_handle.is_none());
        }
        Err(e) => panic!("{e}"),
    }
}

#[test]
fn previews_and_input_keep_the_location() {
    let mut r = located();
    r.window_handle = Some(9);
    r.detail = Some("d".into());
    r.offset_x = Some(3);
    apply_preview(&mut r);
    assert!(r.success);
    assert_eq!((r.screen_x, r.screen_y), (Some(100), Some(200)));
    assert_eq!(r.window_handle, Some(9));
    assert_eq!(r.detail.as_deref(), Some("d"));
    assert_eq!(r.offset_x, Some(3));
    assert_eq!(r.window_title.as_deref(), Some("WeGame"));
    finish_visual_input(&mut r, false, "没有点到".to_string());
    assert!(!r.success);
    assert_eq!(r.message, "没有点到");
    assert_eq!((r.screen_x, r.screen_y), (Some(100), Some(200)));
    assert_eq!(r.window_handle, Some(9));
    assert_eq!(r.offset_x, Some(3));
}

#[test]
fn colour_picking_waits_at_most_five_seconds() {
    assert_eq!(color_pick_delay(None), 0);
    assert_eq!(color_pick_delay(Some(10)), 10);
    assert_eq!(color_pick_delay(Some(5000)), 5000);
    assert_eq!(color_pick_delay(Some(7000)), 5000);
}

#[allow(dead_code)]
fn unused(_: VisualRulesFile) {}

#[test]
fn saved_steps_read_back_later() {
    let mut f = empty_visual_rules_file();
    f.rules = vec![rule("r1")];
    save_automation_steps(&mut f, vec![step("x", "click"), step("y", "inputText")], 10);
    ensure_template_state(&mut f, 20);
    assert_eq!(ids(&effective_steps(&f)), vec!["x", "y"]);
    save_automation_template(&mut f, "Other", vec![step("z", "click")], 30);
    ensure_template_state(&mut f, 40);
    assert_eq!(ids(&effective_steps(&f)), vec!["z"]);
    let _ = set_active_automation_template(&mut f, "default", 50);
    ensure_template_state(&mut f, 60);
    assert_eq!(ids(&effective_steps(&f)), vec!["x", "y"]);
}
