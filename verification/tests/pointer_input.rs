use software_manager::cursor_control::{
    all_inputs_sent, click_at, click_follows_move, click_targets, first_move_method,
    move_reached_point, next_move_step, InputReport, MoveAttempt, MoveMethod, MoveStep, click_via_window_messages, find_window_by_title, is_near, key,
    make_lparam, merge_methods, move_to, move_via_window_messages_only, physical_click_at,
    physical_move_to, send_ctrl_a, type_text, type_unicode_text, unsupported_input_report,
    unsupported_window_report, window_message_attempts, window_report, ClickOutcome, KeyStroke,
    WindowInfo, KEYEVENTF_KEYUP, KEYEVENTF_UNICODE, VK_A, VK_CONTROL,
};

fn strings(v: &[&str]) -> Vec<String> {
    v.iter().map(|s| s.to_string()).collect()
}

fn window(handle: isize, title: &str, rect: Option<(i32, i32, i32, i32)>) -> WindowInfo {
    WindowInfo { handle, visible: true, title: title.to_string(), rect }
}

#[test]
fn lparam_packs_client_coordinates() {
    assert_eq!(make_lparam(0x10, 0x20), 0x0020_0010);
    assert_eq!(make_lparam(-1, 0), 0xFFFF);
    assert_eq!(make_lparam(0, -1), 0xFFFF_0000u32 as isize);
}

#[test]
fn window_message_reports() {
    let outcomes = [
        ClickOutcome { button: true, posted: true, sent: true },
        ClickOutcome { button: false, posted: false, sent: true },
    ];
    let attempts = window_message_attempts(&outcomes);
    assert_eq!(attempts, strings(&["BM_CLICK", "PostMessage", "SendMessage", "SendMessage"]));
    let r = click_via_window_messages(5, 6, Some((1, 2)), &attempts);
    assert!(r.success);
    assert_eq!(r.method, "click:BM_CLICK+PostMessage+SendMessage+SendMessage");
    assert_eq!((r.client_x, r.client_y), (Some(1), Some(2)));
    let r = click_via_window_messages(5, 6, None, &[]);
    assert!(!r.success);
    assert_eq!(r.method, "click:window-message-failed");
    assert_eq!(move_via_window_messages_only(1, 2, None, true).method, "move:PostMessage(WM_MOUSEMOVE)");
    assert_eq!(move_via_window_messages_only(1, 2, None, false).method, "move:window-message-failed");
    assert_eq!(window_report("move", None, 1, 2, true, &[]).method, "move:window-message");
    let u = unsupported_window_report(3, 4);
    assert_eq!(u.method, "unsupported");
    let u = unsupported_input_report(3, 4);
    assert!(!u.success);
}

#[test]
fn physical_reports() {
    let reached = [MoveAttempt { delivered: true, cursor: Some((12, 18)) }];
    let ok = physical_move_to(10, 20, &reached, Some((10, 20)), (0, 0, 1920, 1080));
    assert!(ok.success);
    assert_eq!(ok.method, "物理鼠标");
    let failed = physical_move_to(10, 20, &[], None, (-1920, 0, 3840, 1080));
    assert!(!failed.success);
    assert_eq!(failed.method, "物理鼠标(失败, 虚拟屏 -1920,0 3840x1080)");
    assert_eq!(physical_click_at(1, 2, &[MoveAttempt { delivered: true, cursor: Some((1, 2)) }], None, (0, 0, 1, 1)).method, "物理鼠标");
    let far = MoveAttempt { delivered: true, cursor: Some((0, 0)) };
    let m = move_to(1, 20, &[far, far, far], Some((0, 0)), (0, 0, 1, 1));
    assert!(!m.success);
    assert_eq!(m.final_x, Some(0));
    assert_eq!(merge_methods(&[], "物理鼠标"), "物理鼠标");
    assert_eq!(merge_methods(&strings(&["A", "B"]), "物理鼠标"), "A+B → 物理鼠标");
    let clicked = click_at(&strings(&["PostMessage"]), ok);
    assert_eq!(clicked.method, "PostMessage → 物理鼠标");
    assert!(is_near(Some((16, 14)), 10, 20));
    assert!(!is_near(Some((17, 20)), 10, 20));
    assert!(!is_near(None, 10, 20));
}

#[test]
fn key_strokes() {
    assert_eq!(
        send_ctrl_a(),
        vec![
            key(VK_CONTROL, 0, 0),
            key(VK_A, 0, 0),
            key(VK_A, 0, KEYEVENTF_KEYUP),
            key(VK_CONTROL, 0, KEYEVENTF_KEYUP),
        ]
    );
    let strokes = type_unicode_text("a😀");
    assert_eq!(strokes.len(), 6);
    assert_eq!(strokes[0], KeyStroke { vk: 0, scan: 'a' as u16, flags: KEYEVENTF_UNICODE });
    assert_eq!(strokes[1].flags, KEYEVENTF_UNICODE | KEYEVENTF_KEYUP);
    assert_eq!(strokes[2].scan, 0xD83D);
    assert_eq!(strokes[4].scan, 0xDE00);
    let (select, typing) = type_text("é");
    assert_eq!(select, send_ctrl_a());
    assert_eq!(typing, vec![key(0, 0xE9, KEYEVENTF_UNICODE), key(0, 0xE9, KEYEVENTF_UNICODE | KEYEVENTF_KEYUP)]);
}

#[test]
fn windows_found_by_title() {
    let ws = vec![
        window(1, "WeGame Helper", Some((0, 0, 100, 100))),
        window(2, "WEGAME", Some((0, 0, 800, 600))),
        window(3, "wegame big", Some((0, 0, 600, 800))),
        window(4, "WeGame tiny", Some((0, 0, 79, 600))),
        WindowInfo { handle: 5, visible: false, title: "WeGame".into(), rect: Some((0, 0, 2000, 2000)) },
        window(6, "WeGame norect", None),
        window(0, "WeGame zero", Some((0, 0, 3000, 3000))),
    ];
    assert_eq!(find_window_by_title(&ws, "  wegame "), Some(2));
    assert_eq!(find_window_by_title(&ws, "   "), None);
    assert_eq!(find_window_by_title(&ws, "steam"), None);
    assert_eq!(click_targets(Some(7), Some(7)), vec![7]);
    assert_eq!(click_targets(Some(7), Some(8)), vec![7, 8]);
    assert_eq!(click_targets(None, Some(8)), vec![8]);
    assert_eq!(click_targets(None, None), Vec::<isize>::new());
}

#[test]
fn lparam_words_give_back_the_coordinates() {
    let l = make_lparam(-1, 5) as i64;
    assert_eq!(l & 0xFFFF, 0xFFFF);
    assert_eq!(l >> 16, 5);
    let l = make_lparam(70000, -2) as i64;
    assert_eq!(l & 0xFFFF, 70000 % 65536);
    assert_eq!(l >> 16, 0xFFFE);
}

#[test]
fn moving_tries_each_method_until_near() {
    let m = first_move_method();
    assert_eq!(m, MoveMethod::SendInput);
    assert_eq!(next_move_step(m, false, Some((10, 10)), 10, 10), MoveStep::Try(MoveMethod::SetCursorPos));
    assert_eq!(next_move_step(m, true, Some((14, 4)), 10, 10), MoveStep::Done(true));
    assert_eq!(next_move_step(m, true, Some((17, 10)), 10, 10), MoveStep::Try(MoveMethod::SetCursorPos));
    assert_eq!(
        next_move_step(MoveMethod::SetCursorPos, false, Some((10, 16)), 10, 10),
        MoveStep::Done(true)
    );
    assert_eq!(
        next_move_step(MoveMethod::SetCursorPos, true, None, 10, 10),
        MoveStep::Try(MoveMethod::MouseEvent)
    );
    assert_eq!(next_move_step(MoveMethod::MouseEvent, true, Some((0, 0)), 10, 10), MoveStep::Done(false));
    assert_eq!(next_move_step(MoveMethod::MouseEvent, false, Some((9, 9)), 10, 10), MoveStep::Done(true));
}

#[test]
fn buttons_are_pressed_only_after_a_good_move() {
    let mut report = InputReport {
        success: true,
        method: "SendInput".to_string(),
        target_x: 1,
        target_y: 2,
        final_x: Some(1),
        final_y: Some(2),
    };
    assert!(click_follows_move(&report));
    report.success = false;
    assert!(!click_follows_move(&report));
    assert!(all_inputs_sent(0, 0));
    assert!(all_inputs_sent(2, 2));
    assert!(!all_inputs_sent(2, 1));
}

#[test]
fn message_attempts_stay_within_three_per_window() {
    let outcomes = [
        ClickOutcome { button: true, posted: true, sent: true },
        ClickOutcome { button: true, posted: true, sent: true },
    ];
    let attempts = window_message_attempts(&outcomes);
    assert_eq!(attempts.len(), 6);
    assert_eq!(
        attempts,
        strings(&["BM_CLICK", "PostMessage", "SendMessage", "BM_CLICK", "PostMessage", "SendMessage"])
    );
    assert!(window_message_attempts(&[]).is_empty());
}

#[test]
fn a_move_succeeds_when_a_later_way_reaches_the_point() {
    let undelivered = MoveAttempt { delivered: false, cursor: None };
    let far = MoveAttempt { delivered: true, cursor: Some((100, 100)) };
    let near = MoveAttempt { delivered: true, cursor: Some((15, 5)) };
    assert!(move_reached_point(&[undelivered, near], 10, 10));
    assert!(move_reached_point(&[far, far, near], 10, 10));
    assert!(!move_reached_point(&[far, far, far, near], 10, 10));
    assert!(!move_reached_point(&[far, far], 10, 10));
    assert!(!move_reached_point(&[MoveAttempt { delivered: false, cursor: Some((10, 10)) }], 10, 10));
    assert!(!move_reached_point(&[], 10, 10));
}
