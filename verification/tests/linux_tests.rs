use autoclick_rs::combo::ComboAction;
use autoclick_rs::detect::{detect, DisplayServer};
use autoclick_rs::keyboard::{all_keys, KeyInfo};
use autoclick_rs::linux::detect as linux_detect;
use autoclick_rs::linux::engine::{done_event, event_for, init_error, send_combo, Event};
use autoclick_rs::linux::targets::{
    enumerate_all, process_targets, window_targets, ProcessInfo, Target, WindowInfo,
};
use autoclick_rs::linux::x11::{
    build_keymap, next_source, walks_into, MAX_TREE_DEPTH, parse_cardinal, parse_window_list, user_windows, window_title,
    ListedWindow, WindowSource, X11Injector, X11SendPlan,
};
use autoclick_rs::uinput::{
    key_bits, key_down_events, key_up_events, send_key_events, InputEvent, DEVICE_NAME, EV_KEY,
    EV_SYN, KEY_MAX, SYN_REPORT,
};
use autoclick_rs::worker::{LoopReport, WorkerLoop};

fn lkey(name: &str) -> KeyInfo {
    all_keys().into_iter().find(|(n, _)| *n == name).expect("key in table").1
}

#[test]
fn display_server_names() {
    assert_eq!(DisplayServer::X11.name(), "X11");
    assert_eq!(DisplayServer::Wayland.name(), "Wayland");
}

#[test]
fn detect_prefers_wayland_display_unless_session_says_x11() {
    assert_eq!(detect(true, None, true), DisplayServer::Wayland);
    assert_eq!(detect(true, Some("x11"), false), DisplayServer::X11);
    assert_eq!(detect(true, Some("tty"), true), DisplayServer::Wayland);
    assert_eq!(detect(false, Some("wayland"), true), DisplayServer::Wayland);
    assert_eq!(detect(false, Some("x11"), true), DisplayServer::X11);
    assert_eq!(detect(false, None, true), DisplayServer::X11);
    assert_eq!(detect(false, None, false), DisplayServer::Wayland);
}

#[test]
fn linux_detect_prefers_session_type_then_display() {
    assert_eq!(linux_detect::detect(true, Some("x11"), false), DisplayServer::X11);
    assert_eq!(linux_detect::detect(false, Some("wayland"), true), DisplayServer::Wayland);
    assert_eq!(linux_detect::detect(true, None, true), DisplayServer::X11);
    assert_eq!(linux_detect::detect(true, Some("mir"), false), DisplayServer::Wayland);
    assert_eq!(linux_detect::detect(false, None, false), DisplayServer::X11);
}

#[test]
fn uinput_events() {
    let k = lkey("A");
    let down = vec![
        InputEvent { ev_type: EV_KEY, code: 30, value: 1 },
        InputEvent { ev_type: EV_SYN, code: SYN_REPORT, value: 0 },
    ];
    let up = vec![
        InputEvent { ev_type: EV_KEY, code: 30, value: 0 },
        InputEvent { ev_type: EV_SYN, code: SYN_REPORT, value: 0 },
    ];
    assert_eq!(key_down_events(k), down);
    assert_eq!(key_up_events(k), up);
    let mut both = down.clone();
    both.extend(up);
    assert_eq!(send_key_events(k), both);
}

#[test]
fn uinput_announces_every_code_up_to_key_max() {
    let bits = key_bits();
    assert_eq!(bits.len(), KEY_MAX as usize + 1);
    assert_eq!(bits[0], 0);
    assert_eq!(bits[255], 255);
    assert_eq!(DEVICE_NAME, "autoclick-rs-vkbd");
}

#[test]
fn init_error_message() {
    assert_eq!(
        init_error("X11", "no display"),
        Event::Error("X11 init failed: no display".to_string())
    );
}

#[test]
fn linux_combo_holds_modifiers() {
    let ctrl = lkey("Left Ctrl");
    let c = lkey("C");
    let mut run = send_combo(&[c, ctrl]);
    let mut seen: Vec<(char, u32)> = Vec::new();
    loop {
        match run.action() {
            ComboAction::Down(k) => seen.push(('d', k.keysym)),
            ComboAction::Tap(k) => seen.push(('t', k.keysym)),
            ComboAction::Up(k) => seen.push(('u', k.keysym)),
            ComboAction::Finish(r) => {
                assert_eq!(r, Ok(()));
                break;
            }
        }
        run.record(Ok(()));
    }
    assert_eq!(seen, vec![('d', 0xFFE3), ('t', 'c' as u32), ('u', 0xFFE3)]);
}

#[test]
fn linux_events_for_loop_reports() {
    assert_eq!(
        event_for(LoopReport::Tick(10), "XTest"),
        Some(Event::Tick { count: 10, method: "XTest".to_string() })
    );
    assert_eq!(event_for(LoopReport::Quiet, "uinput"), None);
    assert_eq!(
        event_for(LoopReport::Failed("bad".to_string()), "uinput"),
        Some(Event::Error("bad".to_string()))
    );
    let mut w = WorkerLoop::new(None);
    assert!(w.keep_going(false, 0));
    let _ = w.combo_done(Ok(()));
    assert_eq!(done_event(&w), Event::Done(1));
}

#[test]
fn target_labels() {
    let win = Target { pid: 42, window_id: 7, name: "xterm".into(), title: "bash".into() };
    assert_eq!(win.label(), "xterm  (PID 42)  \"bash\"");
    let proc_ = Target { pid: 1234, window_id: 0, name: "vim".into(), title: String::new() };
    assert_eq!(proc_.label(), "vim  (PID 1234)");
}

fn window(id: u32, pid: u32, title: &str, name: Option<&str>) -> WindowInfo {
    WindowInfo { window_id: id, pid, title: title.into(), process_name: name.map(|s| s.to_string()) }
}

#[test]
fn window_targets_skip_own_and_untitled_windows() {
    let ts = window_targets(
        vec![
            window(1, 10, "Editor", Some("code")),
            window(2, 99, "Me", Some("autoclick")),
            window(3, 11, "", Some("panel")),
            window(4, 12, "Shell", None),
        ],
        99,
    );
    let got: Vec<(u32, String, String)> = ts.iter().map(|t| (t.window_id, t.name.clone(), t.title.clone())).collect();
    assert_eq!(
        got,
        vec![
            (1, "code".to_string(), "Editor".to_string()),
            (4, "unknown".to_string(), "Shell".to_string()),
        ]
    );
}

#[test]
fn window_targets_keep_at_most_a_hundred() {
    let ws: Vec<WindowInfo> = (0..150).map(|i| window(i + 1, 500 + i, "t", Some("x"))).collect();
    let ts = window_targets(ws, 1);
    assert_eq!(ts.len(), 100);
    assert_eq!(ts[99].window_id, 100);
}

fn process(pid: u32, name: &str) -> ProcessInfo {
    ProcessInfo { pid, name: name.into() }
}

#[test]
fn process_targets_sorted_by_lowercased_name() {
    // Sorting by the lower-cased name puts "alpha" before "Beta"; the
    // names themselves keep their case.
    let ts = process_targets(
        vec![
            process(300, "zsh"),
            process(301, "Beta"),
            process(50, "init"),
            process(302, "alpha"),
            process(303, ""),
            process(304, "me"),
            process(305, "beta"),
        ],
        304,
    );
    let got: Vec<(u32, String)> = ts.iter().map(|t| (t.pid, t.name.clone())).collect();
    assert_eq!(
        got,
        vec![
            (302, "alpha".to_string()),
            (301, "Beta".to_string()),
            (305, "beta".to_string()),
            (300, "zsh".to_string()),
        ]
    );
    assert!(ts.iter().all(|t| t.window_id == 0 && t.title.is_empty()));
}

#[test]
fn process_targets_keep_at_most_eighty() {
    let ps: Vec<ProcessInfo> = (0..90).map(|i| process(1000 + i, &format!("p{:03}", 89 - i))).collect();
    let ts = process_targets(ps, 0);
    assert_eq!(ts.len(), 80);
    assert_eq!(ts[0].name, "p000");
    assert_eq!(ts[79].name, "p079");
}

#[test]
fn enumerate_all_falls_back_to_processes() {
    let wins = vec![window(5, 10, "Editor", Some("code"))];
    let procs = vec![process(200, "bash")];
    let x = enumerate_all(DisplayServer::X11, 0, Some(wins), vec![process(201, "zsh")]);
    assert_eq!(x.len(), 1);
    assert_eq!(x[0].window_id, 5);
    let none = enumerate_all(DisplayServer::X11, 0, None, procs);
    assert_eq!(none.len(), 1);
    assert_eq!(none[0].name, "bash");
    let way = enumerate_all(
        DisplayServer::Wayland,
        0,
        Some(vec![window(5, 10, "Editor", Some("code"))]),
        vec![process(202, "fish")],
    );
    assert_eq!(way.len(), 1);
    assert_eq!(way[0].name, "fish");
}

#[test]
fn window_list_property_decoding() {
    let mut bytes: Vec<u8> = Vec::new();
    for w in [0x0100_0001u32, 0, 0x0200_0002] {
        bytes.extend_from_slice(&w.to_ne_bytes());
    }
    bytes.push(0xAA);
    let le = u32::from_ne_bytes([1, 0, 0, 0]) == 1;
    assert_eq!(parse_window_list(32, &bytes, le), vec![0x0100_0001, 0x0200_0002]);
    assert!(parse_window_list(8, &bytes, le).is_empty());
    assert_eq!(parse_window_list(32, &[1, 0, 0, 0], true), vec![1]);
    assert_eq!(parse_window_list(32, &[1, 0, 0, 0], false), vec![0x0100_0000]);
}

#[test]
fn pid_property_decoding() {
    let le = u32::from_ne_bytes([1, 0, 0, 0]) == 1;
    assert_eq!(parse_cardinal(&4321u32.to_ne_bytes(), le), Some(4321));
    assert_eq!(parse_cardinal(&[1, 2, 3], le), None);
}

#[test]
fn window_sources_are_tried_in_order() {
    assert_eq!(next_source(WindowSource::ClientList, 0), Some(WindowSource::StackingList));
    assert_eq!(next_source(WindowSource::StackingList, 0), Some(WindowSource::TreeWalk));
    assert_eq!(next_source(WindowSource::TreeWalk, 0), None);
    assert_eq!(next_source(WindowSource::ClientList, 3), None);
}

#[test]
fn window_titles() {
    // UTF-8 `_NET_WM_NAME` wins.
    let utf8 = "caf\u{e9}".as_bytes().to_vec();
    assert_eq!(window_title(Some(utf8), Some(b"other".to_vec())), Some("caf\u{e9}".to_string()));
    // Invalid UTF-8 falls back to `WM_NAME`, decoded leniently.
    assert_eq!(
        window_title(Some(vec![0xFF, 0xFE]), Some(vec![b'f', 0xE9])),
        Some("f\u{FFFD}".to_string())
    );
    assert_eq!(window_title(Some(Vec::new()), Some(b"xterm".to_vec())), Some("xterm".to_string()));
    assert_eq!(window_title(None, Some(Vec::new())), None);
    assert_eq!(window_title(None, None), None);
}

#[test]
fn user_windows_skip_untitled_and_override_redirect() {
    let listed = vec![
        ListedWindow { window_id: 1, title: Some("A".into()), pid: Some(7), override_redirect: false },
        ListedWindow { window_id: 2, title: None, pid: Some(8), override_redirect: false },
        ListedWindow { window_id: 3, title: Some("menu".into()), pid: Some(9), override_redirect: true },
        ListedWindow { window_id: 4, title: Some("B".into()), pid: None, override_redirect: false },
    ];
    assert_eq!(user_windows(listed), vec![(1, 7, "A".to_string()), (4, 0, "B".to_string())]);
}

#[test]
fn keymap_takes_first_keysym_of_each_keycode() {
    // Keycodes 8..=11, two keysyms each; keycode 9 has NoSymbol.
    let keysyms = [0x61, 0x41, 0, 0, 0xFF0D, 0, 0x61, 0x41];
    let map = build_keymap(8, 11, 2, &keysyms);
    assert_eq!(map, vec![(0x61, 8), (0xFF0D, 10), (0x61, 11)]);
    // A short reply maps only the keycodes it covers.
    assert_eq!(build_keymap(8, 11, 2, &[0x62, 0]), vec![(0x62, 8)]);
}

#[test]
fn injector_plans() {
    let inj = X11Injector { keymap: vec![(0x61, 38), (0xFF0D, 36), (0x61, 99)], has_xtest: true };
    assert_eq!(inj.method_name(), "XTest");
    assert_eq!(inj.keysym_to_keycode(0x61), Some(38));
    // Upper-case letters fall back to their lower-case keysym.
    assert_eq!(inj.keysym_to_keycode(0x41), Some(38));
    assert_eq!(inj.keysym_to_keycode(0xFF1B), None);
    assert_eq!(
        inj.send_key(lkey("Enter"), 77),
        Ok(X11SendPlan { keycode: 36, focus: Some(77), via_xtest: true, event_window: Some(77) })
    );
    let plain = X11Injector { keymap: vec![(0x61, 38)], has_xtest: false };
    assert_eq!(plain.method_name(), "XSendEvent");
    assert_eq!(
        plain.send_key(lkey("A"), 0),
        Ok(X11SendPlan { keycode: 38, focus: None, via_xtest: false, event_window: None })
    );
    assert_eq!(
        plain.send_key(lkey("Escape"), 0),
        Err("No keycode for keysym 0xFF1B ('Esc')".to_string())
    );
    let e_acute = KeyInfo { keysym: 0xE9, keycode: 0, display: "e" };
    assert_eq!(plain.send_key(e_acute, 0), Err("No keycode for keysym 0x00E9 ('e')".to_string()));
}

#[test]
fn tree_walk_depth_limit() {
    assert!(walks_into(0));
    assert!(walks_into(MAX_TREE_DEPTH));
    assert!(!walks_into(MAX_TREE_DEPTH + 1));
}
