use vstd::prelude::*;

use crate::text::{
    lemma_trim_of_clean, chars_of, owned, parse_u64, parsed_u64, push_text, starts_with, string_of, trim, trim_range,
    vec_starts_with,
};

verus! {

// Windows virtual-key codes of the keys a shortcut can name.
pub const VK_RMENU: u32 = 0xA5;

pub const VK_LMENU: u32 = 0xA4;

pub const VK_RCONTROL: u32 = 0xA3;

pub const VK_LCONTROL: u32 = 0xA2;

pub const VK_RSHIFT: u32 = 0xA1;

pub const VK_LSHIFT: u32 = 0xA0;

pub const VK_SPACE: u32 = 0x20;

pub const VK_RETURN: u32 = 0x0D;

pub const VK_ESCAPE: u32 = 0x1B;

pub const VK_CAPITAL: u32 = 0x14;

pub const VK_F1: u32 = 0x70;

/// The key code of a key that a shortcut names outright.
pub open spec fn named_key(k: Seq<char>) -> Option<u32> {
    if k == "RightAlt"@ || k == "AltRight"@ || k == "右 Alt"@ || k == "右Alt"@ {
        Some(VK_RMENU)
    } else if k == "LeftAlt"@ || k == "AltLeft"@ {
        Some(VK_LMENU)
    } else if k == "RightControl"@ || k == "ControlRight"@ {
        Some(VK_RCONTROL)
    } else if k == "LeftControl"@ || k == "ControlLeft"@ {
        Some(VK_LCONTROL)
    } else if k == "RightShift"@ || k == "ShiftRight"@ {
        Some(VK_RSHIFT)
    } else if k == "LeftShift"@ || k == "ShiftLeft"@ {
        Some(VK_LSHIFT)
    } else if k == "Space"@ {
        Some(VK_SPACE)
    } else if k == "Enter"@ {
        Some(VK_RETURN)
    } else if k == "Escape"@ {
        Some(VK_ESCAPE)
    } else if k == "CapsLock"@ {
        Some(VK_CAPITAL)
    } else {
        None
    }
}

/// The key code that a shortcut setting names, once trimmed: a named key; `F1` to `F24`;
/// `Key` or `Digit` followed by one ASCII character, whose code is the key code. Any other
/// text names no key.
pub open spec fn shortcut_code(shortcut: Seq<char>) -> Option<u32> {
    let k = trim(shortcut);
    match named_key(k) {
        Some(v) => Some(v),
        None => if k.len() > 0 && k[0] == 'F' {
            match parsed_u64(k.drop_first()) {
                Some(n) => if 1 <= n <= 24 {
                    Some((VK_F1 + n - 1) as u32)
                } else {
                    None
                },
                None => None,
            }
        } else if k.len() == 4 && starts_with(k, "Key"@) && (k[3] as u32) < 128 {
            Some(k[3] as u32)
        } else if k.len() == 6 && starts_with(k, "Digit"@) && (k[5] as u32) < 128 {
            Some(k[5] as u32)
        } else {
            None
        },
    }
}

fn is(k: &String, name: &str) -> (b: bool)
    ensures
        b == (k@ == name@),
{
    crate::text::same_text(k.as_str(), name)
}

fn named_key_code(k: &String) -> (r: Option<u32>)
    ensures
        r == named_key(k@),
{
    if is(k, "RightAlt") || is(k, "AltRight") || is(k, "右 Alt") || is(k, "右Alt") {
        Some(VK_RMENU)
    } else if is(k, "LeftAlt") || is(k, "AltLeft") {
        Some(VK_LMENU)
    } else if is(k, "RightControl") || is(k, "ControlRight") {
        Some(VK_RCONTROL)
    } else if is(k, "LeftControl") || is(k, "ControlLeft") {
        Some(VK_LCONTROL)
    } else if is(k, "RightShift") || is(k, "ShiftRight") {
        Some(VK_RSHIFT)
    } else if is(k, "LeftShift") || is(k, "ShiftLeft") {
        Some(VK_LSHIFT)
    } else if is(k, "Space") {
        Some(VK_SPACE)
    } else if is(k, "Enter") {
        Some(VK_RETURN)
    } else if is(k, "Escape") {
        Some(VK_ESCAPE)
    } else if is(k, "CapsLock") {
        Some(VK_CAPITAL)
    } else {
        None
    }
}

/// The Windows key code of a shortcut setting, or the error that names the setting.
pub fn shortcut_to_vk(shortcut: &str) -> (r: Result<u32, String>)
    ensures
        match shortcut_code(shortcut@) {
            Some(v) => r == Ok::<u32, String>(v),
            None => r is Err && r->Err_0@ == "不支持的快捷键："@ + shortcut@,
        },
{
    let v = chars_of(shortcut);
    let (a, b) = trim_range(&v);
    let k = string_of(&v, a, b);
    let kv = crate::text::slice_vec(&v, a, b);
    if let Some(code) = named_key_code(&k) {
        return Ok(code);
    }
    let code: Option<u32> = if kv.len() > 0 && kv[0] == 'F' {
        let rest = string_of(&kv, 1, kv.len());
        assert(rest@ =~= kv@.drop_first());
        match parse_u64(rest.as_str()) {
            Some(n) => if 1 <= n && n <= 24 {
                Some(VK_F1 + n as u32 - 1)
            } else {
                None
            },
            None => None,
        }
    } else {
        let key_prefix = chars_of("Key");
        let digit_prefix = chars_of("Digit");
        if kv.len() == 4 && vec_starts_with(&kv, &key_prefix) && (kv[3] as u32) < 128 {
            Some(kv[3] as u32)
        } else if kv.len() == 6 && vec_starts_with(&kv, &digit_prefix) && (kv[5] as u32) < 128 {
            Some(kv[5] as u32)
        } else {
            None
        }
    };
    match code {
        Some(c) => Ok(c),
        None => {
            let mut e = owned("不支持的快捷键：");
            push_text(&mut e, shortcut);
            Err(e)
        },
    }
}

/// The Windows virtual-key code of every key a shortcut setting can name: each name maps to
/// that key's code, a right-hand modifier to the right-hand code and a left-hand one to the
/// left-hand code (Alt is the Windows "menu" key).
pub proof fn law_named_keys_table()
    ensures
        shortcut_code("RightAlt"@) == Some(0xA5u32),
        shortcut_code("AltRight"@) == Some(0xA5u32),
        shortcut_code("右 Alt"@) == Some(0xA5u32),
        shortcut_code("右Alt"@) == Some(0xA5u32),
        shortcut_code("LeftAlt"@) == Some(0xA4u32),
        shortcut_code("AltLeft"@) == Some(0xA4u32),
        shortcut_code("RightControl"@) == Some(0xA3u32),
        shortcut_code("ControlRight"@) == Some(0xA3u32),
        shortcut_code("LeftControl"@) == Some(0xA2u32),
        shortcut_code("ControlLeft"@) == Some(0xA2u32),
        shortcut_code("RightShift"@) == Some(0xA1u32),
        shortcut_code("ShiftRight"@) == Some(0xA1u32),
        shortcut_code("LeftShift"@) == Some(0xA0u32),
        shortcut_code("ShiftLeft"@) == Some(0xA0u32),
        shortcut_code("Space"@) == Some(0x20u32),
        shortcut_code("Enter"@) == Some(0x0Du32),
        shortcut_code("Escape"@) == Some(0x1Bu32),
        shortcut_code("CapsLock"@) == Some(0x14u32),
{
    reveal_strlit("RightAlt");
    reveal_strlit("AltRight");
    reveal_strlit("右 Alt");
    reveal_strlit("右Alt");
    reveal_strlit("LeftAlt");
    reveal_strlit("AltLeft");
    reveal_strlit("RightControl");
    reveal_strlit("ControlRight");
    reveal_strlit("LeftControl");
    reveal_strlit("ControlLeft");
    reveal_strlit("RightShift");
    reveal_strlit("ShiftRight");
    reveal_strlit("LeftShift");
    reveal_strlit("ShiftLeft");
    reveal_strlit("Space");
    reveal_strlit("Enter");
    reveal_strlit("Escape");
    reveal_strlit("CapsLock");
    lemma_trim_of_clean("RightAlt"@);
    lemma_trim_of_clean("AltRight"@);
    lemma_trim_of_clean("右 Alt"@);
    lemma_trim_of_clean("右Alt"@);
    lemma_trim_of_clean("LeftAlt"@);
    lemma_trim_of_clean("AltLeft"@);
    lemma_trim_of_clean("RightControl"@);
    lemma_trim_of_clean("ControlRight"@);
    lemma_trim_of_clean("LeftControl"@);
    lemma_trim_of_clean("ControlLeft"@);
    lemma_trim_of_clean("RightShift"@);
    lemma_trim_of_clean("ShiftRight"@);
    lemma_trim_of_clean("LeftShift"@);
    lemma_trim_of_clean("ShiftLeft"@);
    lemma_trim_of_clean("Space"@);
    lemma_trim_of_clean("Enter"@);
    lemma_trim_of_clean("Escape"@);
    lemma_trim_of_clean("CapsLock"@);
}

/// Function keys and letter or digit keys: `F1` to `F24` give 0x70 to 0x87, `KeyA` gives the
/// code of `A`, `Digit7` that of `7`.
pub proof fn law_function_and_character_keys()
    ensures
        shortcut_code("F1"@) == Some(0x70u32),
        shortcut_code("F12"@) == Some(0x7Bu32),
        shortcut_code("F24"@) == Some(0x87u32),
        shortcut_code("F25"@) is None,
        shortcut_code("KeyA"@) == Some(0x41u32),
        shortcut_code("Digit7"@) == Some(0x37u32),
{
    reveal_strlit("RightAlt");
    reveal_strlit("AltRight");
    reveal_strlit("右 Alt");
    reveal_strlit("右Alt");
    reveal_strlit("LeftAlt");
    reveal_strlit("AltLeft");
    reveal_strlit("RightControl");
    reveal_strlit("ControlRight");
    reveal_strlit("LeftControl");
    reveal_strlit("ControlLeft");
    reveal_strlit("RightShift");
    reveal_strlit("ShiftRight");
    reveal_strlit("LeftShift");
    reveal_strlit("ShiftLeft");
    reveal_strlit("Space");
    reveal_strlit("Enter");
    reveal_strlit("Escape");
    reveal_strlit("CapsLock");
    reveal_strlit("F1");
    reveal_strlit("F12");
    reveal_strlit("F24");
    reveal_strlit("F25");
    reveal_strlit("KeyA");
    reveal_strlit("Digit7");
    reveal_strlit("Key");
    reveal_strlit("Digit");
    lemma_trim_of_clean("F1"@);
    lemma_trim_of_clean("F12"@);
    lemma_trim_of_clean("F24"@);
    lemma_trim_of_clean("F25"@);
    lemma_trim_of_clean("KeyA"@);
    lemma_trim_of_clean("Digit7"@);
    assert("F1"@.drop_first() =~= seq!['1']);
    assert("F12"@.drop_first() =~= seq!['1', '2']);
    assert(seq!['1'].drop_last() =~= Seq::<char>::empty());
    assert(seq!['1', '2'].drop_last() =~= seq!['1']);
    assert(('1' as u32) == 49u32);
    assert(crate::text::digits_value(Seq::<char>::empty()) == 0);
    assert(crate::text::digits_value(seq!['1']) == 1);
    assert(crate::text::digits_value(seq!['1', '2']) == 12);
    assert(crate::text::unsigned_digits(seq!['1']) == seq!['1']);
    assert(('2' as u32) == 50u32 && ('4' as u32) == 52u32 && ('5' as u32) == 53u32);
    assert(seq!['2'].drop_last() =~= Seq::<char>::empty());
    assert(seq!['2', '4'].drop_last() =~= seq!['2']);
    assert(seq!['2', '5'].drop_last() =~= seq!['2']);
    assert(crate::text::digits_value(seq!['2']) == 2);
    assert(crate::text::digits_value(seq!['2', '4']) == 24);
    assert(crate::text::digits_value(seq!['2', '5']) == 25);
    assert(crate::text::unsigned_digits(seq!['2', '4']) == seq!['2', '4']);
    assert(crate::text::unsigned_digits(seq!['2', '5']) == seq!['2', '5']);
    assert(crate::text::unsigned_digits(seq!['1', '2']) == seq!['1', '2']);
    assert("F24"@.drop_first() =~= seq!['2', '4']);
    assert("F25"@.drop_first() =~= seq!['2', '5']);
    assert("KeyA"@.subrange(0, 3) =~= "Key"@);
    assert("Digit7"@.subrange(0, 5) =~= "Digit"@);
}

// ---------------------------------------------------------------------------
// The keyboard hook
// ---------------------------------------------------------------------------

pub const WM_KEYDOWN: u32 = 0x0100;

pub const WM_KEYUP: u32 = 0x0101;

pub const WM_SYSKEYDOWN: u32 = 0x0104;

pub const WM_SYSKEYUP: u32 = 0x0105;

/// The hook's state after a keyboard event, and whether the event toggles recording: only a
/// press of the target key that was up does; a release of it marks it up.
pub open spec fn key_step(down: bool, target_vk: u32, code: i32, vk: u32, message: u32) -> (bool, bool) {
    if code >= 0 && vk == target_vk {
        if message == WM_KEYDOWN || message == WM_SYSKEYDOWN {
            (true, !down)
        } else if message == WM_KEYUP || message == WM_SYSKEYUP {
            (false, false)
        } else {
            (down, false)
        }
    } else {
        (down, false)
    }
}

/// Feeds a keyboard event to the shortcut state; returns whether to toggle recording.
pub fn shortcut_key_event(key_down: &mut bool, target_vk: u32, code: i32, vk: u32, message: u32) -> (toggle: bool)
    ensures
        (*final(key_down), toggle) == key_step(*old(key_down), target_vk, code, vk, message),
{
    if code >= 0 && vk == target_vk {
        if message == WM_KEYDOWN || message == WM_SYSKEYDOWN {
            let was_down = *key_down;
            *key_down = true;
            return !was_down;
        } else if message == WM_KEYUP || message == WM_SYSKEYUP {
            *key_down = false;
        }
    }
    false
}

/// Holding the shortcut key toggles recording once: a repeated press before the release does
/// nothing, and after a release the next press toggles again.
pub proof fn law_one_toggle_per_press(down: bool, target_vk: u32, press: u32, release: u32)
    requires
        press == WM_KEYDOWN || press == WM_SYSKEYDOWN,
        release == WM_KEYUP || release == WM_SYSKEYUP,
    ensures
        !key_step(key_step(down, target_vk, 0, target_vk, press).0, target_vk, 0, target_vk, press).1,
        key_step(key_step(down, target_vk, 0, target_vk, release).0, target_vk, 0, target_vk, press).1,
{
}

/// A hook event (hook code, key code, message) that presses the shortcut key.
pub open spec fn is_press(target_vk: u32, e: (i32, u32, u32)) -> bool {
    e.0 >= 0 && e.1 == target_vk && (e.2 == WM_KEYDOWN || e.2 == WM_SYSKEYDOWN)
}

/// A hook event (hook code, key code, message) that releases the shortcut key.
pub open spec fn is_release(target_vk: u32, e: (i32, u32, u32)) -> bool {
    e.0 >= 0 && e.1 == target_vk && (e.2 == WM_KEYUP || e.2 == WM_SYSKEYUP)
}

/// Whether the target key is held after the first `k` events, starting from `down`.
pub open spec fn key_state(down: bool, target_vk: u32, events: Seq<(i32, u32, u32)>, k: int) -> bool
    decreases k,
{
    if k <= 0 {
        down
    } else {
        key_step(key_state(down, target_vk, events, k - 1), target_vk, events[k - 1].0, events[k - 1].1, events[k - 1].2).0
    }
}

/// Whether event `k` toggles recording.
pub open spec fn toggles_at(down: bool, target_vk: u32, events: Seq<(i32, u32, u32)>, k: int) -> bool {
    key_step(key_state(down, target_vk, events, k), target_vk, events[k].0, events[k].1, events[k].2).1
}

proof fn lemma_held_until_release(down: bool, target_vk: u32, events: Seq<(i32, u32, u32)>, a: int, m: int)
    requires
        0 <= a <= m <= events.len(),
        key_state(down, target_vk, events, a),
        forall|j: int| a <= j < m ==> !is_release(target_vk, #[trigger] events[j]),
    ensures
        key_state(down, target_vk, events, m),
    decreases m - a,
{
    if a < m {
        assert(!is_release(target_vk, events[a]));
        assert(key_state(down, target_vk, events, a + 1));
        lemma_held_until_release(down, target_vk, events, a + 1, m);
    }
}

proof fn lemma_up_until_key_event(down: bool, target_vk: u32, events: Seq<(i32, u32, u32)>, a: int, m: int)
    requires
        0 <= a <= m <= events.len(),
        !key_state(down, target_vk, events, a),
        forall|j: int|
            a <= j < m ==> !is_release(target_vk, #[trigger] events[j]) && !is_press(target_vk, events[j]),
    ensures
        !key_state(down, target_vk, events, m),
    decreases m - a,
{
    if a < m {
        assert(!is_release(target_vk, events[a]) && !is_press(target_vk, events[a]));
        assert(!key_state(down, target_vk, events, a + 1));
        lemma_up_until_key_event(down, target_vk, events, a + 1, m);
    }
}

/// Over any run of keyboard events, recording toggles at most once per press of the shortcut
/// key: between two toggles the key was released; and a press after a release toggles
/// (other keys and non-key messages in between change nothing).
pub proof fn law_toggles_follow_releases(
    down: bool,
    target_vk: u32,
    events: Seq<(i32, u32, u32)>,
    k1: int,
    k2: int,
)
    requires
        0 <= k1 < k2 < events.len(),
    ensures
        toggles_at(down, target_vk, events, k1) && toggles_at(down, target_vk, events, k2) ==> exists|j: int|
            k1 < j < k2 && is_release(target_vk, #[trigger] events[j]),
        is_release(target_vk, events[k1]) && is_press(target_vk, events[k2]) && (forall|j: int|
            k1 < j < k2 ==> !is_release(target_vk, #[trigger] events[j]) && !is_press(target_vk, events[j]))
            ==> toggles_at(down, target_vk, events, k2),
{
    if toggles_at(down, target_vk, events, k1) && toggles_at(down, target_vk, events, k2) {
        if !exists|j: int| k1 < j < k2 && is_release(target_vk, #[trigger] events[j]) {
            assert(key_state(down, target_vk, events, k1 + 1));
            lemma_held_until_release(down, target_vk, events, k1 + 1, k2);
        }
    }
    if is_release(target_vk, events[k1]) && is_press(target_vk, events[k2]) && (forall|j: int|
        k1 < j < k2 ==> !is_release(target_vk, #[trigger] events[j]) && !is_press(target_vk, events[j])) {
        assert(!key_state(down, target_vk, events, k1 + 1));
        lemma_up_until_key_event(down, target_vk, events, k1 + 1, k2);
    }
}

} // verus!
