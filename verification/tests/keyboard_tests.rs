use autoclick_rs::keyboard::{
    all_keys, alpha_keys, common_keys, evdev_letter, find_key, is_modifier, key_names, split_combo,
    KeyInfo, KEY_ENTER, KEY_F1, KEY_LEFTCTRL,
};
use autoclick_rs::macos::keyboard as mac;
use autoclick_rs::windows::keyboard as win;

fn linux_key(name: &str) -> KeyInfo {
    all_keys().into_iter().find(|(n, _)| *n == name).expect("key in table").1
}

#[test]
fn linux_table_sizes_and_order() {
    assert_eq!(common_keys().len(), 35);
    assert_eq!(alpha_keys().len(), 47);
    let all = all_keys();
    assert_eq!(all.len(), 82);
    assert_eq!(all[0].0, "Enter");
    assert_eq!(all[0].1, KeyInfo { keysym: 0xFF0D, keycode: KEY_ENTER, display: "Enter" });
    assert_eq!(all[35].0, "A");
    assert_eq!(all[35].1, KeyInfo { keysym: 'a' as u32, keycode: 30, display: "A" });
    assert_eq!(all[61].0, "1");
    assert_eq!(all[61].1.keycode, 2);
    assert_eq!(all[70].0, "0");
    assert_eq!(all[70].1.keycode, 11);
    assert_eq!(all[81].0, "/");
}

#[test]
fn linux_function_keys_follow_f1() {
    let f5 = linux_key("F5");
    assert_eq!(f5.keysym, 0xFFC2);
    assert_eq!(f5.keycode, KEY_F1 + 4);
    assert_eq!(linux_key("F11").keycode, 87);
}

#[test]
fn linux_key_names_match_table() {
    let names = key_names();
    let all = all_keys();
    assert_eq!(names.len(), all.len());
    for (n, (m, _)) in names.iter().zip(all.iter()) {
        assert_eq!(n, m);
    }
}

#[test]
fn evdev_letters() {
    assert_eq!(evdev_letter('a'), 30);
    assert_eq!(evdev_letter('q'), 16);
    assert_eq!(evdev_letter('z'), 44);
    assert_eq!(evdev_letter('!'), 30);
}

#[test]
fn linux_modifiers_are_the_x11_modifier_keysyms() {
    assert!(is_modifier(&linux_key("Left Ctrl")));
    assert!(is_modifier(&linux_key("Right Shift")));
    assert!(is_modifier(&linux_key("Caps Lock")));
    assert!(is_modifier(&linux_key("Num Lock")));
    assert!(!is_modifier(&linux_key("Enter")));
    assert!(!is_modifier(&linux_key("A")));
    assert!(!is_modifier(&linux_key("F12")));
}

#[test]
fn linux_split_combo_keeps_order() {
    let ctrl = linux_key("Left Ctrl");
    let shift = linux_key("Left Shift");
    let a = linux_key("A");
    let enter = linux_key("Enter");
    let (mods, regs) = split_combo(&[a, ctrl, enter, shift]);
    assert_eq!(mods, vec![ctrl, shift]);
    assert_eq!(regs, vec![a, enter]);
    assert_eq!(ctrl.keycode, KEY_LEFTCTRL);
}

#[test]
fn mac_table() {
    let all = mac::all_keys();
    assert_eq!(all.len(), mac::key_names().len());
    assert_eq!(mac::common_keys().len(), 34);
    let ret = all.iter().find(|(n, _)| *n == "Enter").expect("enter key").1;
    assert_eq!(ret.display, "Enter");
    assert_eq!(ret.keycode, mac::VK_RETURN);
    let cmd = all.iter().find(|(_, k)| k.keycode == mac::VK_COMMAND).expect("command key").1;
    assert!(mac::is_modifier(&cmd));
    assert!(!mac::is_modifier(&ret));
    let (mods, regs) = mac::split_combo(&[ret, cmd]);
    assert_eq!(mods, vec![cmd]);
    assert_eq!(regs, vec![ret]);
}

#[test]
fn windows_table_and_lookup() {
    let all = win::all_keys();
    assert_eq!(win::common_keys().len(), 27);
    assert_eq!(win::alpha_keys().len(), 36);
    assert_eq!(all.len(), 63);
    assert_eq!(win::key_names().len(), 63);
    let enter = win::find_key("Enter (Return)").expect("enter");
    assert_eq!(enter, win::KeyInfo { vk: 0x0D, unicode: 0x0D, display: "Enter" });
    let a = win::find_key("A").expect("a");
    assert_eq!(a, win::KeyInfo { vk: 0x41, unicode: 0x61, display: "A" });
    let zero = win::find_key("0").expect("0");
    assert_eq!(zero.vk, 0x30);
    assert!(win::find_key("Enter").is_none());
    assert!(win::find_key("").is_none());
}

#[test]
fn windows_find_key_round_trips_every_name() {
    for (name, info) in win::all_keys() {
        assert_eq!(win::find_key(name), Some(info));
    }
}

#[test]
fn windows_modifiers() {
    let shift = win::KeyInfo { vk: 0x10, unicode: 0, display: "Shift" };
    let lwin = win::KeyInfo { vk: 0x5B, unicode: 0, display: "Win" };
    let rctrl = win::KeyInfo { vk: 0xA3, unicode: 0, display: "RCtrl" };
    let a = win::find_key("A").unwrap();
    assert!(win::is_modifier(&shift));
    assert!(win::is_modifier(&lwin));
    assert!(win::is_modifier(&rctrl));
    assert!(!win::is_modifier(&a));
    let (mods, regs) = win::split_combo(&[shift, a, rctrl]);
    assert_eq!(mods, vec![shift, rctrl]);
    assert_eq!(regs, vec![a]);
}

#[test]
fn linux_find_key_by_picker_name() {
    assert_eq!(find_key("Left Ctrl").map(|k| k.keysym), Some(0xFFE3));
    assert_eq!(find_key("Q").map(|k| k.keycode), Some(16));
    assert!(find_key("LCtrl").is_none());
    for (name, info) in all_keys() {
        assert_eq!(find_key(name), Some(info));
    }
}
