use autoclick_rs::combo::ComboAction;
use autoclick_rs::windows::app::{key_desc, AppState, PanelState};
use autoclick_rs::windows::engine::{has_modifiers, send_combo, Event, RunLoop, SLEEP_SLICE_NANOS};
use autoclick_rs::windows::injector::{
    console_combo_result, control_state, hold_result, hold_write, key_down, key_up,
    send_combo_console, send_combo_gui, send_combo_screen, send_key, send_key_result,
    send_key_screen, ComboEvent, HoldAttempt, KeySendError, SendRoute,
};
use autoclick_rs::windows::keyboard::{all_keys, find_key, KeyInfo};
use autoclick_rs::windows::sender::console::{
    down, send, send_with_ctrl, up, write_outcome, ConsoleKeyRecord, WriteRun, WriteStep,
};
use autoclick_rs::windows::sender::postmessage::{
    self, PostedMessage, LPARAM_KEYDOWN, LPARAM_KEYUP, WM_CHAR, WM_KEYDOWN, WM_KEYUP,
};
use autoclick_rs::windows::sender::sendinput::{
    down_vk, make_unicode_input, make_vk_input, send_unicode, send_vk, send_with_focus, up_vk,
    KeyInput, KEYEVENTF_KEYUP, KEYEVENTF_UNICODE,
};
use autoclick_rs::windows::sender::Method;
use autoclick_rs::windows::targets::{
    enumerate_all, list_candidate_apps, list_candidate_shells, probe_title, shell_target,
    sort_by_name_pid, ConsoleProbe, GuiWindow, ProcessInfo, Target, TargetMode,
};

const SHIFT: KeyInfo = KeyInfo { vk: 0x10, unicode: 0, display: "Shift" };
const CTRL: KeyInfo = KeyInfo { vk: 0x11, unicode: 0, display: "Ctrl" };

fn win_key(name: &str) -> KeyInfo {
    find_key(name).expect("key in table")
}

#[test]
fn method_names() {
    assert_eq!(Method::PostMessage.name(), "PostMessage");
    assert_eq!(Method::WriteConsoleInput.name(), "WriteConsoleInput");
    assert_eq!(Method::SendInput.name(), "SendInput");
    assert_eq!(Method::ScreenInput.name(), "ScreenInput");
}

#[test]
fn posted_messages() {
    assert_eq!(postmessage::send(0x41, 0x61), vec![PostedMessage { msg: WM_CHAR, wparam: 0x61, lparam: 0 }]);
    // Control characters and DEL go as key-down / key-up.
    let enter = postmessage::send(0x0D, 0x0D);
    assert_eq!(
        enter,
        vec![
            PostedMessage { msg: WM_KEYDOWN, wparam: 0x0D, lparam: LPARAM_KEYDOWN },
            PostedMessage { msg: WM_KEYUP, wparam: 0x0D, lparam: LPARAM_KEYUP },
        ]
    );
    assert_eq!(postmessage::send(0x2E, 0x7F).len(), 2);
    assert_eq!(postmessage::send(0x70, 0).len(), 2);
    assert_eq!(postmessage::down(0x10), PostedMessage { msg: WM_KEYDOWN, wparam: 0x10, lparam: 1 });
    assert_eq!(postmessage::up(0x10), PostedMessage { msg: WM_KEYUP, wparam: 0x10, lparam: 0xC000_0001 });
}

#[test]
fn console_writes() {
    let rec = |key_down: bool, vk: u16, unicode: u16, control_state: u32| ConsoleKeyRecord {
        key_down,
        vk,
        unicode,
        control_state,
    };
    assert_eq!(down(0x41, 0x61).records, vec![rec(true, 0x41, 0x61, 0)]);
    assert_eq!(up(0x41, 0x61).records, vec![rec(false, 0x41, 0x61, 0)]);
    let ws = send(0x0D, 0x0D);
    assert_eq!(ws.len(), 2);
    assert_eq!(ws[0].records, vec![rec(true, 0x0D, 0x0D, 0)]);
    assert_eq!(ws[1].records, vec![rec(false, 0x0D, 0x0D, 0)]);
    assert_eq!(
        send_with_ctrl(0x43, 0x63, 264).records,
        vec![rec(true, 0x43, 0x63, 264), rec(false, 0x43, 0x63, 264)]
    );
}

#[test]
fn console_write_outcomes() {
    assert_eq!(write_outcome(true, 2, 2), Ok(()));
    assert_eq!(write_outcome(true, 1, 2), Err("WriteConsoleInput failed".to_string()));
    assert_eq!(write_outcome(false, 2, 2), Err("WriteConsoleInput failed".to_string()));
    assert_eq!(write_outcome(true, 0, 0), Err("WriteConsoleInput failed".to_string()));
}

#[test]
fn send_input_sequences() {
    assert_eq!(
        send_with_focus(0x41, 0x61),
        vec![
            KeyInput { vk: 0, scan: 0x61, flags: KEYEVENTF_UNICODE },
            KeyInput { vk: 0, scan: 0x61, flags: KEYEVENTF_UNICODE | KEYEVENTF_KEYUP },
        ]
    );
    assert_eq!(
        send_with_focus(0x0D, 0x0D),
        vec![KeyInput { vk: 0x0D, scan: 0, flags: 0 }, KeyInput { vk: 0x0D, scan: 0, flags: KEYEVENTF_KEYUP }]
    );
    assert_eq!(send_vk(0x1B), vec![make_vk_input(0x1B, false), make_vk_input(0x1B, true)]);
    assert_eq!(send_unicode(0x20AC), vec![make_unicode_input(0x20AC, false), make_unicode_input(0x20AC, true)]);
    assert_eq!(make_unicode_input(0x61, true).flags, KEYEVENTF_UNICODE | KEYEVENTF_KEYUP);
    assert_eq!(down_vk(0x10), KeyInput { vk: 0x10, scan: 0, flags: 0 });
    assert_eq!(up_vk(0x10), KeyInput { vk: 0x10, scan: 0, flags: KEYEVENTF_KEYUP });
}

#[test]
fn routes_by_target_kind() {
    let a = win_key("A");
    assert_eq!(send_key(true, Some(5), a, false), SendRoute::PostMessage { vk: 0x41, unicode: 0x61 });
    assert_eq!(send_key(true, Some(5), a, true), SendRoute::FocusSendInput { vk: 0x41 });
    assert_eq!(send_key(false, Some(5), a, false), SendRoute::Console { pid: 5, vk: 0x41, unicode: 0x61 });
    assert_eq!(send_key(false, Some(5), a, true), SendRoute::Console { pid: 5, vk: 0x41, unicode: 0 });
    assert_eq!(send_key(false, None, a, false), SendRoute::NoTarget);
}

fn err(r: Result<Method, KeySendError>) -> String {
    match r {
        Err(e) => e.to_string(),
        Ok(m) => panic!("expected an error, got {:?}", m),
    }
}

#[test]
fn send_results_and_error_variants() {
    let post = SendRoute::PostMessage { vk: 1, unicode: 0 };
    let con = SendRoute::Console { pid: 1, vk: 1, unicode: 0 };
    assert_eq!(send_key_result(post, Ok(())).unwrap(), Method::PostMessage);
    assert_eq!(
        err(send_key_result(post, Err("x".into()))),
        "PostMessage failed \u{2014} app did not accept posted keys"
    );
    assert_eq!(send_key_result(con, Ok(())).unwrap(), Method::WriteConsoleInput);
    assert_eq!(
        err(send_key_result(con, Err("WriteConsoleInput failed".into()))),
        "WriteConsoleInput: WriteConsoleInput failed"
    );
    assert_eq!(
        send_key_result(SendRoute::FocusSendInput { vk: 1 }, Err("ignored".into())).unwrap(),
        Method::SendInput
    );
    assert_eq!(err(send_key_result(SendRoute::NoTarget, Ok(()))), "No injection target (hwnd/pid) provided");
}

#[test]
fn modifier_holds() {
    assert_eq!(key_down(true, Some(3)), vec![HoldAttempt::Console { pid: 3 }, HoldAttempt::SendInput]);
    assert_eq!(key_down(true, None), vec![HoldAttempt::SendInput]);
    assert_eq!(key_up(false, Some(3)), vec![HoldAttempt::Console { pid: 3 }]);
    assert!(key_up(false, None).is_empty());
    assert_eq!(hold_write(SHIFT, false).records[0].key_down, true);
    assert_eq!(hold_write(SHIFT, true).records[0].key_down, false);
    assert_eq!(hold_write(win_key("A"), false).records[0].unicode, 0);
    assert_eq!(hold_result(Some(HoldAttempt::Console { pid: 1 }), false).unwrap(), Method::WriteConsoleInput);
    assert_eq!(hold_result(Some(HoldAttempt::SendInput), true).unwrap(), Method::SendInput);
    assert_eq!(err(hold_result(None, false)), "No injection target (hwnd/pid) for key-down");
    assert_eq!(err(hold_result(None, true)), "No injection target (hwnd/pid) for key-up");
}

#[test]
fn screen_mode_inputs() {
    let a = win_key("A");
    assert_eq!(send_key_screen(a, false), send_with_focus(0x41, 0x61));
    assert_eq!(send_key_screen(a, true), send_with_focus(0x41, 0));
}

#[test]
fn whole_combos() {
    let a = win_key("A");
    let b = win_key("B");
    assert_eq!(
        send_combo_gui(&[CTRL, SHIFT], &[a, b]),
        vec![
            ComboEvent::Down(0x11),
            ComboEvent::Down(0x10),
            ComboEvent::Down(0x41),
            ComboEvent::Up(0x41),
            ComboEvent::Down(0x42),
            ComboEvent::Up(0x42),
            ComboEvent::Up(0x10),
            ComboEvent::Up(0x11),
        ]
    );
    assert_eq!(
        send_combo_screen(&[CTRL], &[a, b]),
        vec![ComboEvent::Down(0x11), ComboEvent::Tap(0x41), ComboEvent::Tap(0x42), ComboEvent::Up(0x11)]
    );
}

#[test]
fn console_control_state() {
    assert_eq!(control_state(&[]), 0);
    assert_eq!(control_state(&[CTRL]), 8 | 256);
    assert_eq!(control_state(&[CTRL, SHIFT]), 8 | 16 | 256);
    let lwin = KeyInfo { vk: 0x5B, unicode: 0, display: "Win" };
    assert_eq!(control_state(&[lwin]), 0);
}

#[test]
fn console_combo_plan() {
    let c = win_key("C");
    let plan = send_combo_console(Some(7), &[CTRL], &[c]).ok().expect("plan");
    assert_eq!(plan.pid, 7);
    let records: Vec<Vec<ConsoleKeyRecord>> = plan.writes.into_iter().map(|w| w.records).collect();
    assert_eq!(records.len(), 3);
    assert_eq!(records[0], down(0x11, 0).records);
    assert_eq!(records[1], send_with_ctrl(0x43, 0x63, 264).records);
    assert_eq!(records[2], up(0x11, 0).records);
    match send_combo_console(None, &[CTRL], &[c]) {
        Err(e) => assert_eq!(e.0, "No pid for console combo"),
        Ok(_) => panic!("expected an error"),
    }
    assert_eq!(console_combo_result(Ok(())).unwrap(), Method::WriteConsoleInput);
    assert_eq!(err(console_combo_result(Err("WriteConsoleInput failed".into()))), "WriteConsoleInput failed");
    assert_eq!(KeySendError::from("m".to_string()).to_string(), "m");
}

#[test]
fn windows_combo_protocol() {
    let a = win_key("A");
    assert!(has_modifiers(&[a, SHIFT]));
    assert!(!has_modifiers(&[a]));
    let mut run = send_combo(&[a, SHIFT]);
    let mut seen: Vec<String> = Vec::new();
    loop {
        match run.action() {
            ComboAction::Down(k) => seen.push(format!("d{:X}", k.vk)),
            ComboAction::Tap(k) => seen.push(format!("t{:X}", k.vk)),
            ComboAction::Up(k) => seen.push(format!("u{:X}", k.vk)),
            ComboAction::Finish(r) => {
                assert_eq!(r, Ok(()));
                break;
            }
        }
        run.record(Ok(()));
    }
    assert_eq!(seen, vec!["d10", "t41", "u10"]);

    // A failed release ends the combo there, as Windows' loop does.
    let mut run = send_combo(&[CTRL, SHIFT, a]);
    let mut seen: Vec<String> = Vec::new();
    let result = loop {
        let outcome = match run.action() {
            ComboAction::Down(k) => { seen.push(format!("d{:X}", k.vk)); Ok(()) }
            ComboAction::Tap(k) => { seen.push(format!("t{:X}", k.vk)); Ok(()) }
            ComboAction::Up(k) => { seen.push(format!("u{:X}", k.vk)); Err("up failed".to_string()) }
            ComboAction::Finish(r) => break r,
        };
        run.record(outcome);
    };
    assert_eq!(seen, vec!["d11", "d10", "t41", "u10"]);
    assert_eq!(result, Err("up failed".to_string()));
}

#[test]
fn windows_run_loop() {
    let mut w = RunLoop::new(Some(1_000_000_000));
    assert_eq!(w.before_combo(false, 0), None);
    assert_eq!(w.combo_done(Ok(())), Event::Tick { count: 1, method: "Window" });
    assert_eq!(w.before_combo(false, 10), None);
    w.tap_sent("PostMessage");
    assert_eq!(w.combo_done(Ok(())), Event::Tick { count: 2, method: "PostMessage" });
    assert_eq!(w.sleep_slice(false, 250_000_000), Ok(SLEEP_SLICE_NANOS));
    assert_eq!(w.sleep_slice(false, 30), Ok(30));
    assert_eq!(w.before_combo(false, 1_000_000_000), Some(Event::Done(2)));
    assert!(w.over());

    let mut s = RunLoop::new(None);
    assert_eq!(s.sleep_slice(true, 5), Err(Event::Done(0)));
    assert!(s.over());

    let mut h = RunLoop::new(None);
    assert_eq!(h.before_combo(false, 0), None);
    assert!(matches!(h.combo_done(Ok(())), Event::Tick { count: 1, .. }));
    assert_eq!(h.done(), Event::Done(1));
    assert!(h.over());

    let mut f = RunLoop::new(None);
    assert_eq!(f.before_combo(false, 0), None);
    assert_eq!(f.combo_done(Err("bad".into())), Event::Error("bad".into()));
    assert!(f.over());

    let mut t = RunLoop::new(None);
    assert_eq!(t.before_combo(true, 0), Some(Event::Done(0)));
}

fn win_target(pid: u32, hwnd: i64, name: &str, title: &str, is_terminal: bool) -> Target {
    Target { pid, hwnd, name: name.into(), title: title.into(), is_terminal, accessible: true }
}

#[test]
fn windows_labels_and_sorting() {
    assert_eq!(win_target(12, 0, "cmd.exe", "C:\\", true).label(), "cmd.exe  (PID 12)  \u{201C}C:\\\u{201D}");
    let sorted = sort_by_name_pid(vec![
        win_target(9, 0, "pwsh.exe", "", true),
        win_target(5, 0, "Cmd.exe", "", true),
        win_target(3, 0, "cmd.exe", "", true),
    ]);
    let got: Vec<u32> = sorted.iter().map(|t| t.pid).collect();
    assert_eq!(got, vec![3, 5, 9]);
    let (all, n) = enumerate_all(
        vec![win_target(9, 0, "wsl.exe", "", true), win_target(2, 0, "cmd.exe", "", true)],
        vec![win_target(1, 77, "Notepad.exe", "x", false)],
    );
    assert_eq!(n, 2);
    let got: Vec<u32> = all.iter().map(|t| t.pid).collect();
    assert_eq!(got, vec![2, 9, 1]);
}

#[test]
fn shells_and_probes() {
    let shells = list_candidate_shells(vec![
        ProcessInfo { pid: 1, name: "PowerShell.exe".into() },
        ProcessInfo { pid: 2, name: "explorer.exe".into() },
        ProcessInfo { pid: 3, name: "cmd.exe".into() },
        ProcessInfo { pid: 4, name: "bash.exe".into() },
    ]);
    let pids: Vec<u32> = shells.iter().map(|p| p.pid).collect();
    assert_eq!(pids, vec![1, 3]);

    let title: Vec<u16> = "Admin: cmd\0\0\0".encode_utf16().collect();
    assert_eq!(probe_title(3, ConsoleProbe::Attached(title)), ("Admin: cmd".to_string(), true));
    assert_eq!(probe_title(3, ConsoleProbe::Attached(vec![0, 0])), ("PID 3".to_string(), true));
    assert_eq!(probe_title(3, ConsoleProbe::Attached(vec![0xD800, 0x41])), ("\u{FFFD}A".to_string(), true));
    assert_eq!(
        probe_title(4, ConsoleProbe::Failed(5)),
        ("PID 4 (access denied (elevated target?))".to_string(), false)
    );
    assert_eq!(probe_title(4, ConsoleProbe::Failed(6)), ("PID 4 (no console attached)".to_string(), false));
    assert_eq!(probe_title(4, ConsoleProbe::Failed(87)), ("PID 4 (process exited)".to_string(), false));
    assert_eq!(probe_title(4, ConsoleProbe::Failed(31)), ("PID 4 (error 31)".to_string(), false));

    let t = shell_target(ProcessInfo { pid: 3, name: "cmd.exe".into() }, "Admin".into(), false);
    assert_eq!((t.pid, t.hwnd, t.is_terminal, t.accessible), (3, 0, true, false));
    assert_eq!(t.title, "Admin");
}

fn gui(hwnd: i64, pid: u32, title: Option<&str>, class: &str, name: Option<&str>) -> GuiWindow {
    GuiWindow {
        hwnd,
        visible: true,
        title: title.map(|s| s.to_string()),
        pid,
        class_name: Some(class.to_string()),
        process_name: name.map(|s| s.to_string()),
    }
}

#[test]
fn gui_candidates() {
    let mut hidden = gui(9, 40, Some("Hidden"), "X", Some("h.exe"));
    hidden.visible = false;
    let ts = list_candidate_apps(
        vec![
            gui(1, 10, Some("Doc - Word"), "OpusApp", Some("WINWORD.EXE")),
            gui(2, 11, Some("  "), "X", Some("blank.exe")),
            gui(3, 12, Some("Taskbar"), "Shell_TrayWnd", Some("explorer.exe")),
            gui(4, 10, Some("Doc - Word"), "OpusApp", Some("WINWORD.EXE")),
            gui(5, 99, Some("Me"), "X", Some("me.exe")),
            gui(6, 0, Some("Ghost"), "X", None),
            gui(7, 13, Some("b"), "X", None),
            gui(8, 14, None, "X", Some("none.exe")),
            hidden,
            gui(10, 13, Some("A"), "X", None),
        ],
        99,
    );
    let got: Vec<(i64, String, String)> = ts.iter().map(|t| (t.hwnd, t.name.clone(), t.title.clone())).collect();
    assert_eq!(
        got,
        vec![
            (10, "unknown".to_string(), "A".to_string()),
            (7, "unknown".to_string(), "b".to_string()),
            (1, "WINWORD.EXE".to_string(), "Doc - Word".to_string()),
        ]
    );
    assert!(ts.iter().all(|t| !t.is_terminal && t.accessible));
}

#[test]
fn key_descriptions() {
    let keys = all_keys();
    let a = keys.iter().position(|(n, _)| *n == "A").unwrap();
    assert_eq!(key_desc(a), "VK=0x41  Char=0x0061");
    let f1 = keys.iter().position(|(n, _)| *n == "F1").unwrap();
    assert_eq!(key_desc(f1), "VK=0x70");
    assert_eq!(key_desc(0), "VK=0x0D  Char=0x000D");
    assert_eq!(key_desc(9999), "");
}

#[test]
fn windows_new_panel_defaults() {
    let p: PanelState<u8> = PanelState::new(3);
    assert_eq!(p.id, 3);
    assert_eq!(p.mode, TargetMode::Terminal);
    assert_eq!(p.interval, "5");
    assert_eq!(p.duration, "0");
    assert_eq!(p.status, "Idle. Configure settings and click Start.");
    let d = p.to_panel_data();
    assert_eq!(d.mode, "terminal");
    assert_eq!(d.key_desc, "VK=0x0D  Char=0x000D");
}

#[test]
fn windows_tabs() {
    let mut app: AppState<u8> = AppState::new();
    assert_eq!(app.add_tab(), 1);
    assert_eq!(app.add_tab(), 2);
    assert_eq!(app.panels[1].status, "Scanning for shells...");
    assert!(app.panels[1].scanning);
    assert_eq!(app.current_idx, 1);
    // Ids continue after the largest one in use.
    app.panels[0].id = 7;
    assert_eq!(app.add_tab(), 8);
    app.select_tab(0);
    assert_eq!(app.current_idx, 0);
    app.select_tab(10);
    assert_eq!(app.current_idx, 0);

    app.mark_running(1, 5, "Running".into());
    match app.close_tab(1) {
        Some((sender, opened)) => {
            assert_eq!(sender, Some(5));
            assert_eq!(opened, None);
        }
        None => panic!("tab closed"),
    }
    assert_eq!(app.panels.len(), 2);
    assert!(app.close_tab(4).is_none());

    app.mark_running(0, 6, "Running".into());
    let (senders, id) = app.close_all();
    assert_eq!(senders, vec![6]);
    assert_eq!(id, 1);
    assert_eq!(app.panels.len(), 1);
    match app.close_tab(0) {
        Some((None, Some(1))) => {}
        _ => panic!("a fresh panel replaces the last one"),
    }
    assert_eq!(app.panels.len(), 1);
    assert_eq!(app.current_idx, 0);
}

#[test]
fn windows_panel_settings_scan_and_filter() {
    let mut app: AppState<u8> = AppState::new();
    let id = app.add_tab();
    assert_eq!(app.set_mode(id, "app"), Some(TargetMode::App));
    assert_eq!(app.panels[0].status, "Scanning for targets...");
    assert_eq!(app.set_mode(id, "anything"), Some(TargetMode::Terminal));
    assert_eq!(app.set_mode(99, "app"), None);
    app.set_mode(id, "app");
    app.set_key(id, -4);
    assert_eq!(app.panels[0].key_index, 0);
    app.set_key(id, 12);
    assert_eq!(app.panels[0].key_index, 12);
    app.set_interval(id, "0.5".into());
    app.set_duration(id, "3".into());
    assert_eq!((app.panels[0].interval.as_str(), app.panels[0].duration.as_str()), ("0.5", "3"));
    app.set_status(id, "hello");
    assert_eq!(app.panels[0].status, "hello");
    assert_eq!(app.refresh_requested(id), Some(TargetMode::App));
    assert_eq!(app.refresh_requested(99), None);
    app.stop_sender(id);
    assert_eq!(app.panels[0].status, "Stopping...");

    app.apply_scan_result(id, Vec::new());
    assert_eq!(app.panels[0].status, "No targets found. Click Refresh to retry.");
    assert_eq!(app.panels[0].target_index, -1);
    app.apply_scan_result(
        id,
        vec![
            win_target(1, 11, "chrome.exe", "Docs", false),
            win_target(2, 12, "Code.exe", "main.rs", false),
            win_target(3, 13, "notepad.exe", "code notes", false),
        ],
    );
    assert_eq!(app.panels[0].status, "Found 3 target(s). Select one and click Start.");
    assert_eq!(app.panels[0].target_index, 0);
    assert_eq!(app.panels[0].target_labels.len(), 3);

    // Labels beginning with the query come first, then those containing it.
    app.filter_targets(id, "CODE");
    let pids: Vec<u32> = app.panels[0].targets.iter().map(|t| t.pid).collect();
    assert_eq!(pids, vec![2, 3]);
    assert_eq!(app.panels[0].search_text, "CODE");
    app.filter_targets(id, "zzz");
    assert!(app.panels[0].targets.is_empty());
    assert_eq!(app.panels[0].target_index, -1);
    app.filter_targets(id, "");
    assert_eq!(app.panels[0].targets.len(), 3);

    // Starting: the selected target, with its window in app mode.
    app.set_target(id, 1);
    assert_eq!(app.start_target(0), Some((2, 12)));
    app.set_target(id, 5);
    assert_eq!(app.start_target(0), None);
    assert_eq!(app.panels[0].status, "Select an accessible target first.");
    app.set_key(id, 9999);
    assert!(app.start_key(0).is_none());
    assert_eq!(app.panels[0].status, "Select a valid key.");
    let a = all_keys().iter().position(|(n, _)| *n == "A").unwrap() as i32;
    app.set_key(id, a);
    assert_eq!(app.start_key(0), Some((win_key("A"), "A")));
}

#[test]
fn windows_events_update_the_panel() {
    let mut app: AppState<u8> = AppState::new();
    let id = app.add_tab();
    let a = all_keys().iter().position(|(n, _)| *n == "A").unwrap() as i32;
    app.set_key(id, a);
    app.mark_running(0, 4, "Running...".into());
    assert_eq!(app.apply_events(0, Vec::new()), None);
    assert_eq!(app.panels[0].status, "Running...");
    let kept = app.apply_events(
        0,
        vec![Event::Tick { count: 1, method: "Window" }, Event::Tick { count: 2, method: "PostMessage" }],
    );
    assert_eq!(kept, None);
    assert_eq!(app.panels[0].status, "Pressed A 2 time(s) [PostMessage]");
    assert!(app.panels[0].running);
    let dropped = app.apply_events(0, vec![Event::Error("WriteConsoleInput failed".into())]);
    assert_eq!(dropped, Some(4));
    assert_eq!(app.panels[0].status, "Stopped \u{2014} WriteConsoleInput failed");
    assert!(!app.panels[0].running);

    app.mark_running(0, 5, "Running...".into());
    let dropped = app.apply_events(0, vec![Event::Done(7), Event::Tick { count: 8, method: "Window" }]);
    assert_eq!(dropped, Some(5));
    assert_eq!(app.panels[0].status, "Pressed A 8 time(s) [Window]");
    assert!(!app.panels[0].running);

    app.mark_running(0, 6, "x".into());
    assert_eq!(app.apply_events(0, vec![Event::Done(3)]), Some(6));
    assert_eq!(app.panels[0].status, "Finished. Pressed A 3 time(s).");
    assert_eq!(app.take_sender(0), None);
    app.mark_running(0, 7, "x".into());
    assert_eq!(app.take_sender(0), Some(7));
}

/// Drives a `WriteRun` over `total` writes whose outcomes are `outs`;
/// returns the writes made and the result.
fn drive_writes(total: usize, outs: &[Result<(), String>]) -> (Vec<usize>, Result<(), String>) {
    let mut run = WriteRun::new(total);
    let mut made = Vec::new();
    loop {
        match run.step() {
            WriteStep::Write(i) => {
                made.push(i);
                run.record(outs[i].clone());
            }
            WriteStep::Finish(r) => return (made, r),
        }
    }
}

#[test]
fn console_send_skips_release_after_failed_press() {
    let (made, r) = drive_writes(send(0x41, 0x61).len(), &[Err("AttachConsole(4): denied".into()), Ok(())]);
    assert_eq!(made, vec![0]);
    assert_eq!(r, Err("AttachConsole(4): denied".to_string()));
}

#[test]
fn console_send_reports_the_release() {
    let (made, r) = drive_writes(2, &[Ok(()), Err("WriteConsoleInput failed".into())]);
    assert_eq!(made, vec![0, 1]);
    assert_eq!(r, Err("WriteConsoleInput failed".to_string()));
    assert_eq!(drive_writes(2, &[Ok(()), Ok(())]), (vec![0, 1], Ok(())));
}

#[test]
fn console_combo_stops_at_first_failed_write() {
    let c = win_key("C");
    let plan = send_combo_console(Some(7), &[CTRL, SHIFT], &[c]).ok().expect("plan");
    assert_eq!(plan.writes.len(), 5);
    let outs: Vec<Result<(), String>> =
        vec![Ok(()), Ok(()), Err("WriteConsoleInput failed".into()), Ok(()), Ok(())];
    let (made, r) = drive_writes(plan.writes.len(), &outs);
    assert_eq!(made, vec![0, 1, 2]);
    assert_eq!(err(console_combo_result(r)), "WriteConsoleInput failed");
    let (made, r) = drive_writes(0, &[]);
    assert!(made.is_empty());
    assert_eq!(console_combo_result(r).unwrap(), Method::WriteConsoleInput);
}

#[test]
fn panels_keep_distinct_ids_and_a_shown_panel() {
    let mut app: AppState<u8> = AppState::new();
    app.add_tab();
    app.add_tab();
    app.add_tab();
    app.close_tab(0);
    app.add_tab();
    app.select_tab(2);
    app.close_tab(2);
    let mut ids: Vec<i32> = app.panels.iter().map(|p| p.id).collect();
    ids.sort();
    ids.dedup();
    assert_eq!(ids.len(), app.panels.len());
    assert!(app.current_idx >= 0 && (app.current_idx as usize) < app.panels.len());
    let p = app.panels.last().unwrap();
    assert_eq!((p.key_index, p.target_index, p.running), (0, -1, false));
}
