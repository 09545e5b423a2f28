use sparkspeech::shortcut::{
    shortcut_key_event, shortcut_to_vk, VK_CAPITAL, VK_F1, VK_LCONTROL, VK_LMENU, VK_RMENU,
    VK_RSHIFT, VK_SPACE, WM_KEYDOWN, WM_KEYUP, WM_SYSKEYDOWN, WM_SYSKEYUP,
};

#[test]
fn named_keys() {
    assert_eq!(shortcut_to_vk("RightAlt"), Ok(0xA5));
    assert_eq!(shortcut_to_vk("右 Alt"), Ok(VK_RMENU));
    assert_eq!(shortcut_to_vk("右Alt"), Ok(VK_RMENU));
    assert_eq!(shortcut_to_vk("  AltRight "), Ok(VK_RMENU));
    assert_eq!(shortcut_to_vk("LeftAlt"), Ok(VK_LMENU));
    assert_eq!(shortcut_to_vk("ControlLeft"), Ok(VK_LCONTROL));
    assert_eq!(shortcut_to_vk("ShiftRight"), Ok(VK_RSHIFT));
    assert_eq!(shortcut_to_vk("Space"), Ok(VK_SPACE));
    assert_eq!(shortcut_to_vk("CapsLock"), Ok(VK_CAPITAL));
    assert_eq!(shortcut_to_vk("Enter"), Ok(0x0D));
    assert_eq!(shortcut_to_vk("Escape"), Ok(0x1B));
}

#[test]
fn function_keys() {
    assert_eq!(shortcut_to_vk("F1"), Ok(VK_F1));
    assert_eq!(shortcut_to_vk("F12"), Ok(0x7B));
    assert_eq!(shortcut_to_vk("F24"), Ok(0x87));
    assert_eq!(shortcut_to_vk("F+5"), Ok(0x74));
    assert_eq!(shortcut_to_vk("F0"), Err("不支持的快捷键：F0".to_string()));
    assert_eq!(shortcut_to_vk("F25"), Err("不支持的快捷键：F25".to_string()));
    assert_eq!(shortcut_to_vk("Fx"), Err("不支持的快捷键：Fx".to_string()));
    assert_eq!(shortcut_to_vk("F"), Err("不支持的快捷键：F".to_string()));
}

#[test]
fn letter_and_digit_keys() {
    assert_eq!(shortcut_to_vk("KeyA"), Ok('A' as u32));
    assert_eq!(shortcut_to_vk("KeyZ"), Ok(0x5A));
    assert_eq!(shortcut_to_vk("Digit7"), Ok('7' as u32));
    assert_eq!(shortcut_to_vk("KeyAB"), Err("不支持的快捷键：KeyAB".to_string()));
    assert_eq!(shortcut_to_vk("Key中"), Err("不支持的快捷键：Key中".to_string()));
}

#[test]
fn unknown_shortcut_names_the_setting() {
    assert_eq!(shortcut_to_vk(" Ctrl+K "), Err("不支持的快捷键： Ctrl+K ".to_string()));
    assert_eq!(shortcut_to_vk(""), Err("不支持的快捷键：".to_string()));
}

#[test]
fn one_toggle_per_press() {
    let target = VK_RMENU;
    let mut down = false;
    assert!(shortcut_key_event(&mut down, target, 0, target, WM_KEYDOWN));
    assert!(down);
    assert!(!shortcut_key_event(&mut down, target, 0, target, WM_KEYDOWN));
    assert!(!shortcut_key_event(&mut down, target, 0, target, WM_SYSKEYDOWN));
    assert!(!shortcut_key_event(&mut down, target, 0, target, WM_KEYUP));
    assert!(!down);
    assert!(shortcut_key_event(&mut down, target, 0, target, WM_SYSKEYDOWN));
    assert!(!shortcut_key_event(&mut down, target, 0, target, WM_SYSKEYUP));
    assert!(!down);
}

#[test]
fn other_keys_and_negative_codes_are_ignored() {
    let mut down = false;
    assert!(!shortcut_key_event(&mut down, VK_RMENU, 0, VK_SPACE, WM_KEYDOWN));
    assert!(!down);
    assert!(!shortcut_key_event(&mut down, VK_RMENU, -1, VK_RMENU, WM_KEYDOWN));
    assert!(!down);
    let mut down = true;
    assert!(!shortcut_key_event(&mut down, VK_RMENU, 0, VK_RMENU, 0x0200));
    assert!(down);
}
