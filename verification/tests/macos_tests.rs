use autoclick_rs::macos::app::{
    build_target_rows, check_permission, combo_keys, event_status, key_desc_multi, tab_entry,
    AppState, PanelState, StartPlan, TabData, KEY_SLOTS,
};
use autoclick_rs::macos::engine::{done_event, event_for, send_combo, Event};
use autoclick_rs::macos::keyboard::{all_keys, KeyInfo};
use autoclick_rs::macos::targets::{enumerate, list_windows, RawWindow, Target, TargetMode};
use autoclick_rs::combo::ComboAction;
use autoclick_rs::worker::{LoopReport, WorkerLoop};

fn raw(owner: &str, title: &str, pid: i64, number: i64, layer: Option<i64>) -> RawWindow {
    RawWindow {
        owner_name: owner.into(),
        title: title.into(),
        pid: Some(pid),
        number: Some(number),
        layer,
    }
}

fn mac_target(pid: u32, name: &str, title: &str) -> Target {
    Target { pid, window_id: pid + 1000, name: name.into(), title: title.into(), mode: TargetMode::App }
}

#[test]
fn mac_labels() {
    assert_eq!(mac_target(5, "Safari", "Home").label(), "Safari  (PID 5)  \"Home\"");
    assert_eq!(mac_target(6, "Finder", "").label(), "Finder  (PID 6)");
}

#[test]
fn mac_window_list_filters_sorts_and_dedups() {
    let ts = list_windows(
        vec![
            raw("Terminal", "zsh", 10, 1, Some(0)),
            raw("Dock", "", 11, 2, Some(20)),
            raw("Me", "x", 99, 3, Some(0)),
            raw("", "", 12, 4, Some(0)),
            raw("", "Untitled", 13, 5, Some(0)),
            raw("alacritty", "vim", 14, 6, Some(0)),
            raw("Terminal", "zsh", 10, 7, Some(0)),
            raw("Kernel", "x", 0, 8, Some(0)),
            raw("NoLayer", "x", 15, 9, None),
        ],
        99,
    );
    let got: Vec<(u32, u32, String, String)> =
        ts.iter().map(|t| (t.pid, t.window_id, t.name.clone(), t.title.clone())).collect();
    assert_eq!(
        got,
        vec![
            (14, 6, "alacritty".to_string(), "vim".to_string()),
            (10, 1, "Terminal".to_string(), "zsh".to_string()),
            (13, 5, "unknown".to_string(), "Untitled".to_string()),
        ]
    );
}

#[test]
fn mac_window_list_keeps_at_most_fifty() {
    let ws: Vec<RawWindow> = (0..70).map(|i| raw(&format!("app{:02}", i), "w", 100 + i, i, Some(0))).collect();
    let ts = list_windows(ws, 0);
    assert_eq!(ts.len(), 50);
    assert_eq!(ts[49].name, "app49");
}

#[test]
fn mac_terminal_mode_keeps_terminal_emulators() {
    let ws = || {
        vec![
            raw("iTerm2", "a", 1, 1, Some(0)),
            raw("Safari", "b", 2, 2, Some(0)),
            raw("WezTerm", "c", 3, 3, Some(0)),
        ]
    };
    let terms: Vec<String> = enumerate(TargetMode::Terminal, 0, ws()).into_iter().map(|t| t.name).collect();
    assert_eq!(terms, vec!["iTerm2".to_string(), "WezTerm".to_string()]);
    assert_eq!(enumerate(TargetMode::App, 0, ws()).len(), 3);
}

#[test]
fn mac_permission_warning() {
    assert_eq!(check_permission(true), "");
    let w = check_permission(false);
    assert!(w.starts_with("Key automation will NOT work until Accessibility permission is granted."));
    assert!(w.ends_with("the warning will disappear automatically"));
}

#[test]
fn mac_key_descriptions() {
    let keys = all_keys();
    assert_eq!(key_desc_multi(&[0]), keys[0].0);
    assert_eq!(key_desc_multi(&[0, 1]), format!("{} + {}", keys[0].0, keys[1].0));
    assert_eq!(key_desc_multi(&[9999, 1]), keys[1].0.to_string());
    assert_eq!(key_desc_multi(&[]), "");
}

#[test]
fn mac_combo_keys() {
    let keys = all_keys();
    let got = combo_keys(&vec![0, 2, 5, 0, 0], 2).expect("valid");
    assert_eq!(got, vec![keys[0].1, keys[2].1]);
    assert!(combo_keys(&vec![0, 9999], 2).is_none());
    assert!(combo_keys(&vec![0], 2).is_none());
    assert_eq!(combo_keys(&vec![1], 0), Some(Vec::<KeyInfo>::new()));
}

#[test]
fn mac_engine_events() {
    assert_eq!(event_for(LoopReport::Tick(1)), Some(Event::Tick { count: 1, method: "CGEvent" }));
    assert_eq!(event_for(LoopReport::Quiet), None);
    assert_eq!(event_for(LoopReport::Failed("x".into())), Some(Event::Error("x".into())));
    let w = WorkerLoop::new(Some(5));
    assert_eq!(done_event(&w), Event::Done(0));
}

#[test]
fn mac_combo_releases_in_reverse() {
    let keys = all_keys();
    let find = |n: &str| keys.iter().find(|(m, _)| *m == n).unwrap().1;
    let (shift, cmd, a) = (find("Left Shift"), find("Left Cmd"), find("A"));
    let mut run = send_combo(&[shift, a, cmd]);
    let mut seen: Vec<String> = Vec::new();
    loop {
        match run.action() {
            ComboAction::Down(k) => seen.push(format!("d{}", k.display)),
            ComboAction::Tap(k) => seen.push(format!("t{}", k.display)),
            ComboAction::Up(k) => seen.push(format!("u{}", k.display)),
            ComboAction::Finish(r) => {
                assert!(r.is_ok());
                break;
            }
        }
        run.record(Ok(()));
    }
    assert_eq!(seen, vec!["dLShift", "dLCmd", "tA", "uLCmd", "uLShift"]);
}

#[test]
fn mac_event_status_lines() {
    assert_eq!(
        event_status(&Event::Tick { count: 10, method: "CGEvent" }),
        ("[CGEvent] Sent 10 keys".to_string(), true)
    );
    assert_eq!(event_status(&Event::Error("no".into())), ("Error: no".to_string(), false));
    assert_eq!(event_status(&Event::Done(3)), ("Done \u{2014} 3 keys sent".to_string(), false));
}

#[test]
fn mac_target_rows_and_row_lookup() {
    let ts = vec![mac_target(1, "Terminal", "a"), mac_target(2, "Safari", "b"), mac_target(3, "Mail", "")];
    let (rows, hdr) = build_target_rows(&ts, 1);
    assert_eq!(
        rows,
        vec![
            "\u{2500}\u{2500} TERMINALS \u{2500}\u{2500}".to_string(),
            "Terminal  (PID 1)  \"a\"".to_string(),
            "\u{2500}\u{2500} GUI APPS \u{2500}\u{2500}".to_string(),
            "Safari  (PID 2)  \"b\"".to_string(),
            "Mail  (PID 3)".to_string(),
        ]
    );
    assert_eq!(hdr, 2);
    let (only, none) = build_target_rows(&ts, 3);
    assert_eq!(only.len(), 4);
    assert_eq!(none, -1);

    let mut p: PanelState<u8> = PanelState::new(1);
    p.targets = ts;
    p.gui_header_index = hdr;
    assert_eq!(p.label_index_to_target(0), None);
    assert_eq!(p.label_index_to_target(1), Some(0));
    assert_eq!(p.label_index_to_target(2), None);
    assert_eq!(p.label_index_to_target(3), Some(1));
    assert_eq!(p.label_index_to_target(4), Some(2));
    assert_eq!(p.label_index_to_target(5), None);
    assert_eq!(p.label_index_to_target(-1), None);
}

#[test]
fn mac_new_panel_defaults() {
    let p: PanelState<u8> = PanelState::new(4);
    assert_eq!(p.id, 4);
    assert_eq!(p.key_count, 1);
    assert_eq!(p.key_indices, vec![0; KEY_SLOTS]);
    assert_eq!(p.interval_sec, "1");
    assert_eq!(p.interval_min, "0");
    assert_eq!(p.duration, "0");
    assert_eq!(p.target_index, -1);
    assert_eq!(p.status, "macOS \u{2014} CGEvent backend");
    assert!(!p.running && p.sender.is_none());
}

#[test]
fn mac_app_panels_lifecycle() {
    let mut app: AppState<u8> = AppState::new();
    assert_eq!(app.add_panel(), 1);
    assert_eq!(app.add_panel(), 2);
    assert_eq!(app.current_idx, 1);
    assert_eq!(app.find_panel(2), Some(1));
    assert_eq!(app.find_panel(7), None);
    let fresh = &app.panels[1];
    assert_eq!(fresh.key_indices, vec![0; KEY_SLOTS]);
    assert_eq!((fresh.target_index, fresh.gui_header_index, fresh.running), (-1, -1, false));

    app.set_key_count(1, 9);
    app.set_key_slot(1, 1, 3);
    app.set_key_slot(1, 8, 3);
    app.set_interval_sec(1, "2".into());
    app.set_duration(1, "5".into());
    let p = &app.panels[0];
    assert_eq!(p.key_count, KEY_SLOTS);
    assert_eq!(p.key_indices, vec![0, 3, 0, 0, 0]);
    assert_eq!(p.interval_sec, "2");
    assert_eq!(p.duration, "5");
    app.set_key_count(1, 0);
    assert_eq!(app.panels[0].key_count, 1);

    // Refreshing fills the target list and selects its first row.
    app.refresh_targets(1, vec![mac_target(10, "Terminal", "t"), mac_target(11, "Notes", "n")], 1);
    let p = &app.panels[0];
    assert_eq!(p.status, "2 windows found");
    assert_eq!(p.target_index, 1);
    assert_eq!(p.gui_header_index, 2);
    assert_eq!(p.target_labels.len(), 4);
    app.refresh_targets(2, Vec::new(), 0);
    assert_eq!(app.panels[1].status, "No windows found. Click Refresh to retry.");
    assert_eq!(app.panels[1].target_index, -1);

    // Starting: the selected row's pid and the active slots' keys.
    app.set_key_count(1, 2);
    match app.start_sender(1) {
        StartPlan::Ready { keys, pid, interval_sec, interval_min, duration } => {
            let all = all_keys();
            assert_eq!(keys, vec![all[0].1, all[3].1]);
            assert_eq!(pid, 10);
            assert_eq!((interval_sec.as_str(), interval_min.as_str(), duration.as_str()), ("2", "0", "5"));
        }
        _ => panic!("expected a ready plan"),
    }
    assert!(matches!(app.start_sender(2), StartPlan::NoTarget));
    assert_eq!(app.panels[1].status, "No target selected \u{2014} click Refresh first");
    assert!(matches!(app.start_sender(9), StartPlan::NoPanel));
    app.set_key_slot(1, 0, 9999);
    assert!(matches!(app.start_sender(1), StartPlan::BadKey));
    app.set_key_slot(1, 0, 0);

    app.sender_started(1, 42);
    assert!(app.panels[0].running);
    assert_eq!(app.panels[0].status, "Running...");
    assert_eq!(app.apply_event(1, Event::Tick { count: 1, method: "CGEvent" }), None);
    assert_eq!(app.panels[0].status, "[CGEvent] Sent 1 keys");
    assert!(app.panels[0].running);
    assert_eq!(app.apply_event(1, Event::Done(1)), Some(42));
    assert!(!app.panels[0].running);

    app.sender_started(2, 43);
    assert_eq!(app.stop_sender(2), Some(43));
    assert_eq!(app.panels[1].status, "Stopped");
    assert_eq!(app.stop_sender(2), None);
}

#[test]
fn mac_panel_data_and_tabs() {
    let mut app: AppState<u8> = AppState::new();
    assert!(app.panel_data().is_none());
    app.add_panel();
    app.add_panel();
    app.add_panel();
    app.set_key_count(2, 2);
    app.set_key_slot(2, 1, 1);
    app.select_tab(1);
    let d = app.panel_data().expect("panel shown");
    let all = all_keys();
    assert_eq!(d.id, 2);
    assert_eq!(d.key_indices, vec![0, 1]);
    assert_eq!(d.key_desc, format!("{} + {}", all[0].0, all[1].0));
    app.select_tab(7);
    assert!(app.panel_data().is_none());

    app.sender_started(3, 9);
    assert_eq!(app.close_tab(2), Some(9));
    assert_eq!(app.current_idx, 1);
    assert_eq!(app.close_tab(5), None);
    assert_eq!(app.close_tab(0), None);
    assert_eq!(app.current_idx, 0);
    app.sender_started(2, 8);
    assert_eq!(app.close_all(), vec![8]);
    assert!(app.panels.is_empty());
    assert_eq!(app.current_idx, -1);
    assert_eq!(app.add_panel(), 4);
}

#[test]
fn mac_dedup_drops_every_repeat_of_a_pid_title_pair() {
    // The two "zsh" windows of process 10 are not neighbours once sorted.
    let ts = list_windows(
        vec![
            raw("Terminal", "zsh", 10, 1, Some(0)),
            raw("terminal", "other", 10, 2, Some(0)),
            raw("Terminal", "zsh", 10, 3, Some(0)),
        ],
        0,
    );
    let got: Vec<u32> = ts.iter().map(|t| t.window_id).collect();
    assert_eq!(got, vec![1, 2]);
}

#[test]
fn mac_refresh_without_terminals_selects_the_first_app() {
    let mut app: AppState<u8> = AppState::new();
    let id = app.add_panel();
    app.refresh_targets(id, vec![mac_target(20, "Safari", "Home")], 0);
    assert_eq!(app.panels[0].target_index, 2);
    assert_eq!(app.panels[0].gui_header_index, 1);
    match app.start_sender(id) {
        StartPlan::Ready { pid, .. } => assert_eq!(pid, 20),
        _ => panic!("the first app is selected"),
    }
}

#[test]
fn mac_tabs_follow_the_panels() {
    assert_eq!(tab_entry(3), TabData { id: 3, title: "Tab 3".to_string() });
    assert_eq!(tab_entry(-2).title, "Tab -2");
    let mut app: AppState<u8> = AppState::new();
    app.add_panel();
    app.add_panel();
    app.add_panel();
    app.close_tab(1);
    let titles: Vec<String> = app.tabs().into_iter().map(|t| t.title).collect();
    assert_eq!(titles, vec!["Tab 1".to_string(), "Tab 3".to_string()]);
}
