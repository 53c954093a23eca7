//! Mouse and keyboard input: the reports of input attempts, window-message
//! coordinates, and the key strokes that type text.  The system calls that
//! deliver input are made by the application; this module decides what they
//! are given and what their outcome is reported as.

use vstd::prelude::*;

use crate::text::{chars_of, push_all, push_signed_decimal, push_str, signed_decimal, string_from_chars};

verus! {

/// The outcome of moving or clicking the physical mouse.
pub struct InputReport {
    pub success: bool,
    pub method: String,
    pub target_x: i32,
    pub target_y: i32,
    pub final_x: Option<i32>,
    pub final_y: Option<i32>,
}

/// The outcome of moving or clicking through window messages.
pub struct WindowInputReport {
    pub success: bool,
    pub method: String,
    pub target_x: i32,
    pub target_y: i32,
    pub client_x: Option<i32>,
    pub client_y: Option<i32>,
}

/// One keyboard event for `SendInput`.
#[derive(Clone, Copy, PartialEq, Eq, Structural, Debug)]
pub struct KeyStroke {
    pub vk: u16,
    pub scan: u16,
    pub flags: u32,
}

pub const VK_CONTROL: u16 = 0x11;

pub const VK_A: u16 = 0x41;

pub const KEYEVENTF_KEYUP: u32 = 0x0002;

pub const KEYEVENTF_UNICODE: u32 = 0x0004;

/// A report for a platform without input support.
pub fn unsupported_input_report(x: i32, y: i32) -> (res: InputReport)
    ensures
        !res.success,
        res.method@ == "unsupported"@,
        res.target_x == x,
        res.target_y == y,
        res.final_x.is_none(),
        res.final_y.is_none(),
{
    InputReport {
        success: false,
        method: String::from_str("unsupported"),
        target_x: x,
        target_y: y,
        final_x: None,
        final_y: None,
    }
}

/// A window-message report for a platform without input support.
pub fn unsupported_window_report(x: i32, y: i32) -> (res: WindowInputReport)
    ensures
        !res.success,
        res.method@ == "unsupported"@,
        res.target_x == x,
        res.target_y == y,
        res.client_x.is_none(),
        res.client_y.is_none(),
{
    WindowInputReport {
        success: false,
        method: String::from_str("unsupported"),
        target_x: x,
        target_y: y,
        client_x: None,
        client_y: None,
    }
}

/// The `LPARAM` of a mouse message: the client y coordinate in the high 16
/// bits and x in the low 16 bits, each truncated to 16 bits.
pub open spec fn lparam_of(client_x: i32, client_y: i32) -> int {
    (client_y as int % 65536) * 65536 + (client_x as int % 65536)
}

pub fn make_lparam(client_x: i32, client_y: i32) -> (res: isize)
    ensures
        res == ((lparam_of(client_x, client_y) as u32) as isize),
{
    let ux: u32 = client_x as u32;
    let uy: u32 = client_y as u32;
    let lo: u32 = ux & 0xffff;
    let hi: u32 = uy & 0xffff;
    assert(ux & 0xffff == ux % 65536) by (bit_vector);
    assert(uy & 0xffff == uy % 65536) by (bit_vector);
    proof {
        lemma_u32_cast_mod(client_x);
        lemma_u32_cast_mod(client_y);
    }
    assert(lo < 65536 && hi < 65536);
    assert((hi << 16) | lo == hi * 65536 + lo) by (bit_vector)
        requires
            hi < 65536,
            lo < 65536,
    ;
    let v: u32 = (hi << 16) | lo;
    assert(v as int == lparam_of(client_x, client_y));
    v as isize
}

/// The message's `LPARAM` gives the client coordinates back: its low word is
/// x and its high word y, each modulo 2^16.
pub proof fn law_lparam_words(client_x: i32, client_y: i32)
    ensures
        0 <= lparam_of(client_x, client_y) < 0x1_0000_0000,
        lparam_of(client_x, client_y) % 65536 == client_x as int % 65536,
        lparam_of(client_x, client_y) / 65536 == client_y as int % 65536,
{
    let lo = client_x as int % 65536;
    let hi = client_y as int % 65536;
    assert(0 <= lo < 65536 && 0 <= hi < 65536);
    assert(0 <= hi * 65536 + lo < 0x1_0000_0000) by (nonlinear_arith)
        requires
            0 <= lo < 65536,
            0 <= hi < 65536,
    ;
    assert((hi * 65536 + lo) % 65536 == lo && (hi * 65536 + lo) / 65536 == hi) by (nonlinear_arith)
        requires
            0 <= lo < 65536,
            0 <= hi < 65536,
    ;
}

proof fn lemma_u32_cast_mod(x: i32)
    ensures
        (x as u32) % 65536 == x as int % 65536,
{
    if x >= 0 {
        assert(x as u32 == x as int);
    } else {
        assert(x as u32 == x as int + 0x1_0000_0000) by (bit_vector)
            requires
                x < 0,
        ;
        assert((x as int + 0x1_0000_0000) % 65536 == x as int % 65536) by (nonlinear_arith);
    }
}

/// `{action}:{methods joined by +}` (`window-message` when none was
/// recorded) on success, `{action}:window-message-failed` otherwise.
pub open spec fn window_method(action: Seq<char>, success: bool, methods: Seq<Seq<char>>) -> Seq<char> {
    if success {
        action + ":"@ + if methods.len() == 0 {
            "window-message"@
        } else {
            crate::custom_software::join_with(methods, "+"@)
        }
    } else {
        action + ":window-message-failed"@
    }
}

fn join_strings(parts: &[String], sep: &str) -> (res: Vec<char>)
    ensures
        res@ == crate::custom_software::join_with(
            parts@.map_values(|s: String| s@),
            sep@,
        ),
{
    let ghost v = parts@.map_values(|s: String| s@);
    let mut out: Vec<char> = Vec::new();
    let mut i: usize = 0;
    while i < parts.len()
        invariant
            i <= parts@.len(),
            v == parts@.map_values(|s: String| s@),
            out@ == crate::custom_software::join_with(v.take(i as int), sep@),
        decreases parts@.len() - i,
    {
        assert(v.take(i + 1).drop_last() =~= v.take(i as int));
        assert(v.take(i + 1).last() == parts@[i as int]@);
        if i > 0 {
            push_str(&mut out, sep);
        } else {
            assert(v.take(1) =~= seq![parts@[0]@]);
        }
        push_str(&mut out, parts[i].as_str());
        i = i + 1;
    }
    assert(v.take(i as int) =~= v);
    out
}

/// The report of moving or clicking through window messages.
pub fn window_report(
    action: &str,
    client: Option<(i32, i32)>,
    screen_x: i32,
    screen_y: i32,
    success: bool,
    methods: &[String],
) -> (res: WindowInputReport)
    ensures
        res.success == success,
        res.method@ == window_method(action@, success, methods@.map_values(|s: String| s@)),
        res.target_x == screen_x,
        res.target_y == screen_y,
        res.client_x == match client {
            Some(p) => Some(p.0),
            None => None::<i32>,
        },
        res.client_y == match client {
            Some(p) => Some(p.1),
            None => None::<i32>,
        },
{
    let mut m = chars_of(action);
    if success {
        push_str(&mut m, ":");
        if methods.len() == 0 {
            push_str(&mut m, "window-message");
        } else {
            let j = join_strings(methods, "+");
            push_all(&mut m, j.as_slice());
        }
    } else {
        push_str(&mut m, ":window-message-failed");
    }
    WindowInputReport {
        success,
        method: string_from_chars(m.as_slice()),
        target_x: screen_x,
        target_y: screen_y,
        client_x: match client {
            Some(p) => Some(p.0),
            None => None,
        },
        client_y: match client {
            Some(p) => Some(p.1),
            None => None,
        },
    }
}

/// How one window took a message click: a button clicked with `BM_CLICK`,
/// and whether the posted and the sent mouse messages went through.
pub struct ClickOutcome {
    pub button: bool,
    pub posted: bool,
    pub sent: bool,
}

/// The names of the methods that worked, window by window.
pub open spec fn attempt_names(outcomes: Seq<ClickOutcome>) -> Seq<Seq<char>>
    decreases outcomes.len(),
{
    if outcomes.len() == 0 {
        Seq::empty()
    } else {
        let o = outcomes.last();
        let a = attempt_names(outcomes.drop_last());
        let b = if o.button {
            a.push("BM_CLICK"@)
        } else {
            a
        };
        let c = if o.posted {
            b.push("PostMessage"@)
        } else {
            b
        };
        if o.sent {
            c.push("SendMessage"@)
        } else {
            c
        }
    }
}

/// A method name that a message click can record.
pub open spec fn is_attempt_name(n: Seq<char>) -> bool {
    n == "BM_CLICK"@ || n == "PostMessage"@ || n == "SendMessage"@
}

/// Each window tried adds at most three method names, each one of
/// `BM_CLICK`, `PostMessage` and `SendMessage`.
pub proof fn law_attempts_per_window(outcomes: Seq<ClickOutcome>)
    ensures
        attempt_names(outcomes).len() <= 3 * outcomes.len(),
        forall|i: int|
            0 <= i < attempt_names(outcomes).len() ==> is_attempt_name(
                #[trigger] attempt_names(outcomes)[i],
            ),
    decreases outcomes.len(),
{
    if outcomes.len() > 0 {
        law_attempts_per_window(outcomes.drop_last());
    }
}

/// A message click tries at most two windows, so it records at most six
/// method names.
pub proof fn law_message_attempts_at_most_six(
    hit: Option<isize>,
    root: Option<isize>,
    outcomes: Seq<ClickOutcome>,
)
    requires
        outcomes.len() == click_target_list(hit, root).len(),
    ensures
        click_target_list(hit, root).len() <= 2,
        attempt_names(outcomes).len() <= 6,
{
    law_attempts_per_window(outcomes);
}

/// The window-message methods that clicked, in the order they were tried.
pub fn window_message_attempts(outcomes: &[ClickOutcome]) -> (res: Vec<String>)
    ensures
        res@.map_values(|s: String| s@) == attempt_names(outcomes@),
        res@.len() <= 3 * outcomes@.len(),
        forall|i: int| 0 <= i < res@.len() ==> is_attempt_name(#[trigger] res@[i]@),
{
    let mut out: Vec<String> = Vec::new();
    let mut i: usize = 0;
    while i < outcomes.len()
        invariant
            i <= outcomes@.len(),
            out@.map_values(|s: String| s@) == attempt_names(outcomes@.take(i as int)),
        decreases outcomes@.len() - i,
    {
        assert(outcomes@.take(i + 1).drop_last() =~= outcomes@.take(i as int));
        let o = &outcomes[i];
        let ghost before = out@;
        if o.button {
            out.push(String::from_str("BM_CLICK"));
        }
        let ghost b1 = out@;
        if o.posted {
            out.push(String::from_str("PostMessage"));
        }
        let ghost b2 = out@;
        if o.sent {
            out.push(String::from_str("SendMessage"));
        }
        assert(out@.map_values(|s: String| s@) =~= attempt_names(outcomes@.take(i + 1)));
        i = i + 1;
    }
    assert(outcomes@.take(i as int) =~= outcomes@);
    proof {
        law_attempts_per_window(outcomes@);
        assert forall|j: int| 0 <= j < out@.len() implies is_attempt_name(#[trigger] out@[j]@) by {
            assert(out@.map_values(|s: String| s@)[j] == out@[j]@);
        }
    }
    out
}

/// The report of a message click at a screen point.
pub fn click_via_window_messages(
    x: i32,
    y: i32,
    client: Option<(i32, i32)>,
    attempts: &[String],
) -> (res: WindowInputReport)
    ensures
        res.success == (attempts@.len() > 0),
        res.method@ == window_method(
            "click"@,
            attempts@.len() > 0,
            attempts@.map_values(|s: String| s@),
        ),
        res.target_x == x,
        res.target_y == y,
{
    window_report("click", client, x, y, attempts.len() > 0, attempts)
}

/// The report of a message move to a screen point.
pub fn move_via_window_messages_only(x: i32, y: i32, client: Option<(i32, i32)>, success: bool) -> (res:
    WindowInputReport)
    ensures
        res.success == success,
        res.method@ == if success {
            "move:PostMessage(WM_MOUSEMOVE)"@
        } else {
            "move:window-message-failed"@
        },
        res.target_x == x,
        res.target_y == y,
{
    let mut methods: Vec<String> = Vec::new();
    if success {
        methods.push(String::from_str("PostMessage(WM_MOUSEMOVE)"));
    }
    let r = window_report("move", client, x, y, success, methods.as_slice());
    proof {
        reveal_strlit("move");
        reveal_strlit(":");
        reveal_strlit("PostMessage(WM_MOUSEMOVE)");
        reveal_strlit("move:PostMessage(WM_MOUSEMOVE)");
        reveal_strlit(":window-message-failed");
        reveal_strlit("move:window-message-failed");
        if success {
            assert(methods@.map_values(|s: String| s@) =~= seq!["PostMessage(WM_MOUSEMOVE)"@]);
            assert(crate::custom_software::join_with(seq!["PostMessage(WM_MOUSEMOVE)"@], "+"@)
                == "PostMessage(WM_MOUSEMOVE)"@);
            assert("move"@ + ":"@ + "PostMessage(WM_MOUSEMOVE)"@ =~= "move:PostMessage(WM_MOUSEMOVE)"@);
        } else {
            assert("move"@ + ":window-message-failed"@ =~= "move:window-message-failed"@);
        }
    }
    r
}

/// Whether the cursor is within 6 pixels of a point on both axes.
pub open spec fn near(cursor: Option<(i32, i32)>, x: i32, y: i32) -> bool {
    match cursor {
        Some(p) => -6 <= p.0 - x <= 6 && -6 <= p.1 - y <= 6,
        None => false,
    }
}

pub fn is_near(cursor: Option<(i32, i32)>, x: i32, y: i32) -> (res: bool)
    ensures
        res == near(cursor, x, y),
{
    match cursor {
        Some(p) => {
            let dx: i64 = p.0 as i64 - x as i64;
            let dy: i64 = p.1 as i64 - y as i64;
            -6 <= dx && dx <= 6 && -6 <= dy && dy <= 6
        },
        None => false,
    }
}

/// The ways of moving the physical mouse, tried in this order.
#[derive(Clone, Copy, PartialEq, Eq, Structural, Debug)]
pub enum MoveMethod {
    /// `SendInput` with absolute virtual-desktop coordinates.
    SendInput,
    /// `SetCursorPos`.
    SetCursorPos,
    /// `mouse_event` with absolute virtual-desktop coordinates.
    MouseEvent,
}

/// What to do after one way of moving was tried.
#[derive(Clone, Copy, PartialEq, Eq, Structural, Debug)]
pub enum MoveStep {
    /// Try this way next.
    Try(MoveMethod),
    /// Stop: whether the cursor reached the point.
    Done(bool),
}

/// The first way of moving to try.
pub fn first_move_method() -> (res: MoveMethod)
    ensures
        res == MoveMethod::SendInput,
{
    MoveMethod::SendInput
}

/// After trying `method` (`delivered`: whether the input was taken, which
/// only `SendInput` reports; `cursor`: the position read back after the
/// wait, when it was read): stop once the cursor is within 6 pixels of the
/// point, otherwise go on to the next way, and give up after the last.
pub open spec fn next_move_spec(
    method: MoveMethod,
    delivered: bool,
    cursor: Option<(i32, i32)>,
    x: i32,
    y: i32,
) -> MoveStep {
    match method {
        MoveMethod::SendInput => if delivered && near(cursor, x, y) {
            MoveStep::Done(true)
        } else {
            MoveStep::Try(MoveMethod::SetCursorPos)
        },
        MoveMethod::SetCursorPos => if near(cursor, x, y) {
            MoveStep::Done(true)
        } else {
            MoveStep::Try(MoveMethod::MouseEvent)
        },
        MoveMethod::MouseEvent => MoveStep::Done(near(cursor, x, y)),
    }
}

pub fn next_move_step(method: MoveMethod, delivered: bool, cursor: Option<(i32, i32)>, x: i32, y: i32) -> (res:
    MoveStep)
    ensures
        res == next_move_spec(method, delivered, cursor, x, y),
{
    match method {
        MoveMethod::SendInput => if delivered && is_near(cursor, x, y) {
            MoveStep::Done(true)
        } else {
            MoveStep::Try(MoveMethod::SetCursorPos)
        },
        MoveMethod::SetCursorPos => if is_near(cursor, x, y) {
            MoveStep::Done(true)
        } else {
            MoveStep::Try(MoveMethod::MouseEvent)
        },
        MoveMethod::MouseEvent => MoveStep::Done(is_near(cursor, x, y)),
    }
}

/// A move is reported successful only when the cursor was read back within
/// 6 pixels of the point, and at most three ways are tried: each step goes
/// on to a later way or stops.
pub proof fn law_move_succeeds_only_near(
    method: MoveMethod,
    delivered: bool,
    cursor: Option<(i32, i32)>,
    x: i32,
    y: i32,
)
    ensures
        next_move_spec(method, delivered, cursor, x, y) == MoveStep::Done(true) ==> near(
            cursor,
            x,
            y,
        ),
        method == MoveMethod::MouseEvent ==> next_move_spec(method, delivered, cursor, x, y) is Done,
        next_move_spec(method, delivered, cursor, x, y) == MoveStep::Try(MoveMethod::SendInput)
            ==> false,
{
}

/// What was seen after one way of moving was tried: whether the input was
/// taken, and the cursor position read back, when it was read.
#[derive(Clone, Copy, Debug)]
pub struct MoveAttempt {
    pub delivered: bool,
    pub cursor: Option<(i32, i32)>,
}

/// Runs the move steps from `method` over what was seen after each way was
/// tried; true when they stop with the cursor at the point. Running out of
/// attempts before they stop counts as a failure.
pub open spec fn move_run(method: MoveMethod, attempts: Seq<MoveAttempt>, x: i32, y: i32) -> bool
    decreases attempts.len(),
{
    if attempts.len() == 0 {
        false
    } else {
        match next_move_spec(method, attempts[0].delivered, attempts[0].cursor, x, y) {
            MoveStep::Done(b) => b,
            MoveStep::Try(m) => move_run(m, attempts.drop_first(), x, y),
        }
    }
}

/// Whether the physical mouse reached `(x, y)`: the move steps, started at
/// [`first_move_method`], stop with success on what was seen.
pub open spec fn move_reached(attempts: Seq<MoveAttempt>, x: i32, y: i32) -> bool {
    move_run(MoveMethod::SendInput, attempts, x, y)
}

pub fn move_reached_point(attempts: &[MoveAttempt], x: i32, y: i32) -> (res: bool)
    ensures
        res == move_reached(attempts@, x, y),
{
    let mut method = first_move_method();
    let mut i: usize = 0;
    assert(attempts@.skip(0) =~= attempts@);
    while i < attempts.len()
        invariant
            i <= attempts@.len(),
            move_reached(attempts@, x, y) == move_run(method, attempts@.skip(i as int), x, y),
        decreases attempts@.len() - i,
    {
        let a = attempts[i];
        assert(attempts@.skip(i as int)[0] == a);
        assert(attempts@.skip(i as int).drop_first() =~= attempts@.skip(i + 1));
        match next_move_step(method, a.delivered, a.cursor, x, y) {
            MoveStep::Done(b) => {
                return b;
            },
            MoveStep::Try(m) => {
                method = m;
                i = i + 1;
            },
        }
    }
    false
}

spec fn move_rank(m: MoveMethod) -> int {
    match m {
        MoveMethod::SendInput => 0,
        MoveMethod::SetCursorPos => 1,
        MoveMethod::MouseEvent => 2,
    }
}

proof fn lemma_move_run_near(method: MoveMethod, attempts: Seq<MoveAttempt>, x: i32, y: i32)
    requires
        move_run(method, attempts, x, y),
    ensures
        exists|i: int|
            0 <= i < attempts.len() && i < 3 - move_rank(method) && near(
                #[trigger] attempts[i].cursor,
                x,
                y,
            ),
    decreases attempts.len(),
{
    match next_move_spec(method, attempts[0].delivered, attempts[0].cursor, x, y) {
        MoveStep::Done(b) => {
            assert(near(attempts[0].cursor, x, y));
        },
        MoveStep::Try(m) => {
            let rest = attempts.drop_first();
            lemma_move_run_near(m, rest, x, y);
            let j = choose|j: int|
                0 <= j < rest.len() && j < 3 - move_rank(m) && near(#[trigger] rest[j].cursor, x, y);
            assert(attempts[j + 1] == rest[j]);
        },
    }
}

/// A physical move succeeds only when the cursor was read back within 6
/// pixels of the point after one of the first three ways tried.
pub proof fn law_reached_means_near(attempts: Seq<MoveAttempt>, x: i32, y: i32)
    requires
        move_reached(attempts, x, y),
    ensures
        exists|i: int| 0 <= i < attempts.len() && i < 3 && near(#[trigger] attempts[i].cursor, x, y),
{
    lemma_move_run_near(MoveMethod::SendInput, attempts, x, y);
}

/// The button is pressed for a physical click only once the move succeeded.
pub fn click_follows_move(report: &InputReport) -> (res: bool)
    ensures
        res == report.success,
{
    report.success
}

/// Whether a batch of input events went through: nothing to send counts as
/// sent, otherwise every event must have been taken.
pub fn all_inputs_sent(requested: usize, accepted: u32) -> (res: bool)
    ensures
        res == (requested == 0 || requested as int == accepted as int),
{
    requested == 0 || requested as u64 == accepted as u64
}

/// The method text of a physical move: `物理鼠标`, or on failure the
/// virtual screen's origin and size.
pub open spec fn physical_method(moved: bool, metrics: (i32, i32, i32, i32)) -> Seq<char> {
    if moved {
        "物理鼠标"@
    } else {
        "物理鼠标(失败, 虚拟屏 "@ + signed_decimal(metrics.0 as int) + ","@ + signed_decimal(
            metrics.1 as int,
        ) + " "@ + signed_decimal(metrics.2 as int) + "x"@ + signed_decimal(metrics.3 as int)
            + ")"@
    }
}

/// The report of moving the physical mouse to `(x, y)`.
pub fn physical_move_to(
    x: i32,
    y: i32,
    attempts: &[MoveAttempt],
    final_pos: Option<(i32, i32)>,
    metrics: (i32, i32, i32, i32),
) -> (res: InputReport)
    ensures
        res.success == move_reached(attempts@, x, y),
        res.method@ == physical_method(move_reached(attempts@, x, y), metrics),
        res.target_x == x,
        res.target_y == y,
        res.final_x == match final_pos {
            Some(p) => Some(p.0),
            None => None::<i32>,
        },
        res.final_y == match final_pos {
            Some(p) => Some(p.1),
            None => None::<i32>,
        },
{
    let moved = move_reached_point(attempts, x, y);
    let method = if moved {
        String::from_str("物理鼠标")
    } else {
        let mut v = chars_of("物理鼠标(失败, 虚拟屏 ");
        push_signed_decimal(&mut v, metrics.0 as i64);
        push_str(&mut v, ",");
        push_signed_decimal(&mut v, metrics.1 as i64);
        push_str(&mut v, " ");
        push_signed_decimal(&mut v, metrics.2 as i64);
        push_str(&mut v, "x");
        push_signed_decimal(&mut v, metrics.3 as i64);
        push_str(&mut v, ")");
        string_from_chars(v.as_slice())
    };
    InputReport {
        success: moved,
        method,
        target_x: x,
        target_y: y,
        final_x: match final_pos {
            Some(p) => Some(p.0),
            None => None,
        },
        final_y: match final_pos {
            Some(p) => Some(p.1),
            None => None,
        },
    }
}

/// The report of a physical click at `(x, y)`: the move succeeded when the
/// move steps stopped at the point on what was seen (`attempts`, see
/// [`move_reached`]), the button is pressed only after
/// the move succeeded (see [`click_follows_move`]), and the report is the
/// move's.
pub fn physical_click_at(
    x: i32,
    y: i32,
    attempts: &[MoveAttempt],
    final_pos: Option<(i32, i32)>,
    metrics: (i32, i32, i32, i32),
) -> (res: InputReport)
    ensures
        res.success == move_reached(attempts@, x, y),
        res.method@ == physical_method(move_reached(attempts@, x, y), metrics),
        res.target_x == x,
        res.target_y == y,
        res.final_x == match final_pos {
            Some(p) => Some(p.0),
            None => None::<i32>,
        },
        res.final_y == match final_pos {
            Some(p) => Some(p.1),
            None => None::<i32>,
        },
{
    physical_move_to(x, y, attempts, final_pos, metrics)
}

/// The report of moving to `(x, y)` after a window-message move was tried:
/// the message move is not reported, only the physical move that follows,
/// judged by [`move_reached`] on what was seen after each way was tried.
pub fn move_to(
    x: i32,
    y: i32,
    attempts: &[MoveAttempt],
    final_pos: Option<(i32, i32)>,
    metrics: (i32, i32, i32, i32),
) -> (res: InputReport)
    ensures
        res.success == move_reached(attempts@, x, y),
        res.method@ == physical_method(move_reached(attempts@, x, y), metrics),
        res.target_x == x,
        res.target_y == y,
        res.final_x == match final_pos {
            Some(p) => Some(p.0),
            None => None::<i32>,
        },
        res.final_y == match final_pos {
            Some(p) => Some(p.1),
            None => None::<i32>,
        },
{
    physical_move_to(x, y, attempts, final_pos, metrics)
}

/// The method text of a click that first tried window messages.
pub open spec fn merged_method(attempts: Seq<Seq<char>>, physical: Seq<char>) -> Seq<char> {
    if attempts.len() == 0 {
        physical
    } else {
        crate::custom_software::join_with(attempts, "+"@) + " → "@ + physical
    }
}

pub fn merge_methods(message_attempts: &[String], physical_method: &str) -> (res: String)
    ensures
        res@ == merged_method(message_attempts@.map_values(|s: String| s@), physical_method@),
{
    if message_attempts.len() == 0 {
        return String::from_str(physical_method);
    }
    let mut v = join_strings(message_attempts, "+");
    push_str(&mut v, " → ");
    push_str(&mut v, physical_method);
    string_from_chars(v.as_slice())
}

/// The report of a click at a point: the physical click's report with the
/// window-message methods tried before it in front of its method.
pub fn click_at(attempts: &[String], physical: InputReport) -> (res: InputReport)
    ensures
        res.success == physical.success,
        res.method@ == merged_method(attempts@.map_values(|s: String| s@), physical.method@),
        res.target_x == physical.target_x,
        res.target_y == physical.target_y,
        res.final_x == physical.final_x,
        res.final_y == physical.final_y,
{
    let method = merge_methods(attempts, physical.method.as_str());
    InputReport { method, ..physical }
}

// ---------------------------------------------------------------------------
// Target windows
// ---------------------------------------------------------------------------
/// A top-level window as the window enumeration saw it; `rect` is `None`
/// when its rectangle could not be read.
pub struct WindowInfo {
    pub handle: isize,
    pub visible: bool,
    pub title: String,
    pub rect: Option<(i32, i32, i32, i32)>,
}

pub open spec fn rect_width(r: (i32, i32, i32, i32)) -> int {
    r.2 - r.0
}

pub open spec fn rect_height(r: (i32, i32, i32, i32)) -> int {
    r.3 - r.1
}

pub open spec fn rect_area(r: (i32, i32, i32, i32)) -> int {
    rect_width(r) * rect_height(r)
}

/// A window that a title search may pick: a real, visible window with a
/// title containing the filter (both lowercased) and at least 80x60 pixels.
pub open spec fn title_match(w: WindowInfo, lower_filter: Seq<char>) -> bool {
    &&& w.handle != 0
    &&& w.visible
    &&& w.title@.len() > 0
    &&& crate::text::contains_seq(crate::text::unicode_lowercase(w.title@), lower_filter)
    &&& w.rect is Some
    &&& rect_width(w.rect->0) >= 80
    &&& rect_height(w.rect->0) >= 60
}

/// Position `k` holds the largest matching window, the first of equally
/// large ones.
pub open spec fn is_largest_match(ws: Seq<WindowInfo>, lower_filter: Seq<char>, k: int) -> bool {
    &&& 0 <= k < ws.len()
    &&& title_match(ws[k], lower_filter)
    &&& forall|j: int|
        0 <= j < ws.len() && title_match(#[trigger] ws[j], lower_filter) ==> rect_area(ws[j].rect->0)
            <= rect_area(ws[k].rect->0)
    &&& forall|j: int|
        0 <= j < k && title_match(#[trigger] ws[j], lower_filter) ==> rect_area(ws[j].rect->0)
            < rect_area(ws[k].rect->0)
}

/// The window whose title contains `title_filter` (trimmed, compared in
/// lowercase): the largest matching one. A blank filter matches nothing.
pub fn find_window_by_title(windows: &[WindowInfo], title_filter: &str) -> (res: Option<isize>)
    ensures
        match res {
            Some(h) => crate::text::trim(title_filter@).len() > 0 && exists|k: int|
                is_largest_match(
                    windows@,
                    crate::text::unicode_lowercase(crate::text::trim(title_filter@)),
                    k,
                ) && windows@[k].handle == h,
            None => crate::text::trim(title_filter@).len() == 0 || forall|j: int|
                0 <= j < windows@.len() ==> !title_match(
                    #[trigger] windows@[j],
                    crate::text::unicode_lowercase(crate::text::trim(title_filter@)),
                ),
        },
{
    let f = crate::text::trimmed(title_filter);
    if f.len() == 0 {
        return None;
    }
    let lf = crate::text::lowercase_chars(f.as_slice());
    let ghost lfg = lf@;
    let mut best: Option<(usize, i128)> = None;
    let mut i: usize = 0;
    while i < windows.len()
        invariant
            i <= windows@.len(),
            lfg == lf@,
            match best {
                Some((k, area)) => k < i && title_match(windows@[k as int], lfg) && area
                    == rect_area(windows@[k as int].rect->0) && (forall|j: int|
                    0 <= j < i && title_match(#[trigger] windows@[j], lfg) ==> rect_area(
                        windows@[j].rect->0,
                    ) <= area) && (forall|j: int|
                    0 <= j < k && title_match(#[trigger] windows@[j], lfg) ==> rect_area(
                        windows@[j].rect->0,
                    ) < area),
                None => forall|j: int| 0 <= j < i ==> !title_match(#[trigger] windows@[j], lfg),
            },
        decreases windows@.len() - i,
    {
        let w = &windows[i];
        if w.handle != 0 && w.visible {
            let tc = chars_of(w.title.as_str());
            if tc.len() > 0 {
                let lt = crate::text::lowercase_chars(tc.as_slice());
                if crate::text::contains(lt.as_slice(), lf.as_slice()) {
                    match w.rect {
                        Some(r) => {
                            let width: i64 = r.2 as i64 - r.0 as i64;
                            let height: i64 = r.3 as i64 - r.1 as i64;
                            if width >= 80 && height >= 60 {
                                assert(width as i128 * height as i128 <= 0x1_0000_0000i128
                                    * 0x1_0000_0000i128) by (nonlinear_arith)
                                    requires
                                        80 <= width <= 0x1_0000_0000i64,
                                        60 <= height <= 0x1_0000_0000i64,
                                ;
                                let area: i128 = width as i128 * height as i128;
                                assert(title_match(windows@[i as int], lfg));
                                assert(area == rect_area(r));
                                let replace = match best {
                                    None => true,
                                    Some((_, b)) => area > b,
                                };
                                if replace {
                                    best = Some((i, area));
                                }
                            }
                        },
                        None => {},
                    }
                }
            }
        }
        i = i + 1;
    }
    match best {
        Some((k, _)) => {
            assert(is_largest_match(windows@, lfg, k as int));
            Some(windows[k].handle)
        },
        None => None,
    }
}

/// The windows a message click goes to: the window under the point, then
/// the target's root window unless it is the same one. Each is given only
/// when it is a valid window.
pub open spec fn click_target_list(hit: Option<isize>, root: Option<isize>) -> Seq<isize> {
    let first = match hit {
        Some(h) => seq![h],
        None => Seq::<isize>::empty(),
    };
    first + match root {
        Some(r) => if hit == Some(r) {
            Seq::<isize>::empty()
        } else {
            seq![r]
        },
        None => Seq::<isize>::empty(),
    }
}

pub fn click_targets(hit: Option<isize>, root: Option<isize>) -> (res: Vec<isize>)
    ensures
        res@ == click_target_list(hit, root),
{
    let mut out: Vec<isize> = Vec::new();
    match hit {
        Some(h) => out.push(h),
        None => {},
    }
    match root {
        Some(r) => {
            let dup = match hit {
                Some(h) => h == r,
                None => false,
            };
            if !dup {
                out.push(r);
            }
        },
        None => {},
    }
    assert(out@ =~= match hit {
        Some(h) => seq![h],
        None => Seq::<isize>::empty(),
    } + match root {
        Some(r) => if hit == Some(r) {
            Seq::<isize>::empty()
        } else {
            seq![r]
        },
        None => Seq::<isize>::empty(),
    });
    out
}

// ---------------------------------------------------------------------------
// Key strokes
// ---------------------------------------------------------------------------
pub open spec fn stroke(vk: u16, scan: u16, flags: u32) -> KeyStroke {
    KeyStroke { vk, scan, flags }
}

pub fn key(vk: u16, scan: u16, flags: u32) -> (res: KeyStroke)
    ensures
        res == stroke(vk, scan, flags),
{
    KeyStroke { vk, scan, flags }
}

/// Ctrl+A: select all.
pub open spec fn ctrl_a_strokes() -> Seq<KeyStroke> {
    seq![
        stroke(VK_CONTROL, 0, 0),
        stroke(VK_A, 0, 0),
        stroke(VK_A, 0, KEYEVENTF_KEYUP),
        stroke(VK_CONTROL, 0, KEYEVENTF_KEYUP),
    ]
}

pub fn send_ctrl_a() -> (res: Vec<KeyStroke>)
    ensures
        res@ == ctrl_a_strokes(),
{
    let mut v: Vec<KeyStroke> = Vec::new();
    v.push(key(VK_CONTROL, 0, 0));
    v.push(key(VK_A, 0, 0));
    v.push(key(VK_A, 0, KEYEVENTF_KEYUP));
    v.push(key(VK_CONTROL, 0, KEYEVENTF_KEYUP));
    assert(v@ =~= ctrl_a_strokes());
    v
}

/// The UTF-16 code units of a character.
pub open spec fn utf16_units(c: char) -> Seq<u16> {
    let v = c as int;
    if v < 0x10000 {
        seq![v as u16]
    } else {
        seq![(0xD800 + (v - 0x10000) / 0x400) as u16, (0xDC00 + (v - 0x10000) % 0x400) as u16]
    }
}

/// The UTF-16 encoding of a string.
pub open spec fn utf16(s: Seq<char>) -> Seq<u16>
    decreases s.len(),
{
    if s.len() == 0 {
        Seq::empty()
    } else {
        utf16(s.drop_last()) + utf16_units(s.last())
    }
}

/// A key-down and a key-up event per UTF-16 code unit.
pub open spec fn unicode_strokes(units: Seq<u16>) -> Seq<KeyStroke>
    decreases units.len(),
{
    if units.len() == 0 {
        Seq::empty()
    } else {
        unicode_strokes(units.drop_last()) + seq![
            stroke(0, units.last(), KEYEVENTF_UNICODE),
            stroke(0, units.last(), KEYEVENTF_UNICODE | KEYEVENTF_KEYUP),
        ]
    }
}

proof fn lemma_unicode_strokes_append(a: Seq<u16>, b: Seq<u16>)
    ensures
        unicode_strokes(a + b) == unicode_strokes(a) + unicode_strokes(b),
    decreases b.len(),
{
    if b.len() == 0 {
        assert(a + b =~= a);
        assert(unicode_strokes(a) + unicode_strokes(b) =~= unicode_strokes(a));
    } else {
        lemma_unicode_strokes_append(a, b.drop_last());
        assert((a + b).drop_last() =~= a + b.drop_last());
        assert((a + b).last() == b.last());
        assert(unicode_strokes(a) + unicode_strokes(b) =~= unicode_strokes(a) + unicode_strokes(
            b.drop_last(),
        ) + seq![
            stroke(0, b.last(), KEYEVENTF_UNICODE),
            stroke(0, b.last(), KEYEVENTF_UNICODE | KEYEVENTF_KEYUP),
        ]);
    }
}

/// Typing presses and releases one key per UTF-16 code unit, in order.
pub proof fn law_unicode_strokes_pairs(units: Seq<u16>)
    ensures
        unicode_strokes(units).len() == 2 * units.len(),
        forall|i: int|
            0 <= i < units.len() ==> unicode_strokes(units)[2 * i] == stroke(
                0,
                units[i],
                KEYEVENTF_UNICODE,
            ) && unicode_strokes(units)[2 * i + 1] == stroke(
                0,
                units[i],
                KEYEVENTF_UNICODE | KEYEVENTF_KEYUP,
            ),
    decreases units.len(),
{
    if units.len() > 0 {
        let prev = units.drop_last();
        law_unicode_strokes_pairs(prev);
        assert forall|i: int| 0 <= i < units.len() implies unicode_strokes(units)[2 * i] == stroke(
            0,
            units[i],
            KEYEVENTF_UNICODE,
        ) && unicode_strokes(units)[2 * i + 1] == stroke(
            0,
            units[i],
            KEYEVENTF_UNICODE | KEYEVENTF_KEYUP,
        ) by {
            if i < prev.len() {
                assert(units[i] == prev[i]);
            }
        }
    }
}

fn char_utf16_units(c: char) -> (res: Vec<u16>)
    ensures
        res@ == utf16_units(c),
{
    let v: u32 = c as u32;
    let mut out: Vec<u16> = Vec::new();
    if v < 0x10000 {
        out.push(v as u16);
    } else {
        let w: u32 = v - 0x10000;
        assert(w < 0x100000) by {
            assert(v <= 0x10FFFF);
        }
        out.push((0xD800 + w / 0x400) as u16);
        out.push((0xDC00 + w % 0x400) as u16);
    }
    assert(out@ =~= utf16_units(c));
    out
}

/// The key strokes that type `text` as Unicode input.
pub fn type_unicode_text(text: &str) -> (res: Vec<KeyStroke>)
    ensures
        res@ == unicode_strokes(utf16(text@)),
{
    let cs = chars_of(text);
    let mut out: Vec<KeyStroke> = Vec::new();
    let mut i: usize = 0;
    while i < cs.len()
        invariant
            i <= cs@.len(),
            out@ == unicode_strokes(utf16(cs@.take(i as int))),
        decreases cs@.len() - i,
    {
        let units = char_utf16_units(cs[i]);
        let ghost before = out@;
        let ghost done = utf16(cs@.take(i as int));
        let mut k: usize = 0;
        while k < units.len()
            invariant
                k <= units@.len(),
                out@ == unicode_strokes(done + units@.take(k as int)),
            decreases units@.len() - k,
        {
            let u = units[k];
            out.push(key(0, u, KEYEVENTF_UNICODE));
            out.push(key(0, u, KEYEVENTF_UNICODE | KEYEVENTF_KEYUP));
            proof {
                assert((done + units@.take(k + 1)).drop_last() =~= done + units@.take(k as int));
                assert((done + units@.take(k + 1)).last() == u);
            }
            k = k + 1;
        }
        proof {
            assert(units@.take(k as int) =~= units@);
            assert(cs@.take(i + 1).drop_last() =~= cs@.take(i as int));
            assert(cs@.take(i + 1).last() == cs@[i as int]);
        }
        i = i + 1;
    }
    assert(cs@.take(i as int) =~= cs@);
    out
}

/// The key strokes that replace the focused text with `text`: select all,
/// then type.
pub fn type_text(text: &str) -> (res: (Vec<KeyStroke>, Vec<KeyStroke>))
    ensures
        res.0@ == ctrl_a_strokes(),
        res.1@ == unicode_strokes(utf16(text@)),
{
    (send_ctrl_a(), type_unicode_text(text))
}

} // verus!
