//! Keyboard and mouse decisions of input injection: which DOM key codes are
//! typed as characters (so that a Korean input method on the host does not
//! remap them), which become key presses, and how buttons map.

use vstd::prelude::*;

use crate::platform::{KeyEvent, MousePhase};
use crate::text::{chars_of, eq_str, lower_char, lower_char_exec, push_str_chars, starts_with, starts_with_str, string_of, upper_char, upper_char_exec};

verus! {

/// A key of the injector's virtual keyboard.
#[derive(Debug, Clone, Copy, PartialEq, Eq, Structural)]
pub enum KeyCode {
    Return,
    Escape,
    Backspace,
    Tab,
    Space,
    Delete,
    Home,
    End,
    PageUp,
    PageDown,
    LeftArrow,
    RightArrow,
    UpArrow,
    DownArrow,
    Meta,
    Control,
    Alt,
    Shift,
    CapsLock,
    /// Function key F1 to F12.
    F(u8),
    /// The key that types this character.
    Unicode(char),
}

/// Mouse button of the injector.
#[derive(Debug, Clone, Copy, PartialEq, Eq, Structural)]
pub enum ButtonKind {
    Left,
    Middle,
    Right,
}

/// Browser button number to injector button (0 or unknown: left).
pub open spec fn spec_map_button(b: i32) -> ButtonKind {
    if b == 1 {
        ButtonKind::Middle
    } else if b == 2 {
        ButtonKind::Right
    } else {
        ButtonKind::Left
    }
}

/// Browser button number to injector button.
pub fn map_button(b: i32) -> (r: ButtonKind)
    ensures
        r == spec_map_button(b),
{
    match b {
        1 => ButtonKind::Middle,
        2 => ButtonKind::Right,
        _ => ButtonKind::Left,
    }
}

/// Press or release of a button.
#[derive(Debug, Clone, Copy, PartialEq, Eq, Structural)]
pub enum ButtonStep {
    Press,
    Release,
}

/// Button steps of a pointer event: a press (a double press for a second
/// click), nothing for a move, a release for an up.
pub open spec fn spec_button_steps(phase: MousePhase, click_count: i32) -> Seq<ButtonStep> {
    match phase {
        MousePhase::Down => if click_count >= 2 {
            seq![ButtonStep::Press, ButtonStep::Release, ButtonStep::Press]
        } else {
            seq![ButtonStep::Press]
        },
        MousePhase::Move => seq![],
        MousePhase::Up => seq![ButtonStep::Release],
    }
}

/// Button steps of a pointer event.
pub fn button_steps(phase: MousePhase, click_count: i32) -> (r: Vec<ButtonStep>)
    ensures
        r@ == spec_button_steps(phase, click_count),
{
    let mut v: Vec<ButtonStep> = Vec::new();
    match phase {
        MousePhase::Down => {
            v.push(ButtonStep::Press);
            if click_count >= 2 {
                v.push(ButtonStep::Release);
                v.push(ButtonStep::Press);
            }
        },
        MousePhase::Move => {},
        MousePhase::Up => {
            v.push(ButtonStep::Release);
        },
    }
    assert(v@ =~= spec_button_steps(phase, click_count));
    v
}

pub open spec fn is_ascii(c: char) -> bool {
    (c as u32) < 128
}

pub open spec fn is_ascii_alpha(c: char) -> bool {
    ('a' <= c && c <= 'z') || ('A' <= c && c <= 'Z')
}

/// US-layout shifted digit.
pub open spec fn shifted_digit(d: char) -> Option<char> {
    if d == '1' {
        Some('!')
    } else if d == '2' {
        Some('@')
    } else if d == '3' {
        Some('#')
    } else if d == '4' {
        Some('$')
    } else if d == '5' {
        Some('%')
    } else if d == '6' {
        Some('^')
    } else if d == '7' {
        Some('&')
    } else if d == '8' {
        Some('*')
    } else if d == '9' {
        Some('(')
    } else if d == '0' {
        Some(')')
    } else {
        None
    }
}

/// US-layout punctuation of a DOM key code.
pub open spec fn punctuation(code: Seq<char>, shift: bool) -> Option<char> {
    let pick = |a: char, b: char| if shift { b } else { a };
    if code == "Space"@ {
        Some(' ')
    } else if code == "Minus"@ {
        Some(pick('-', '_'))
    } else if code == "Equal"@ {
        Some(pick('=', '+'))
    } else if code == "BracketLeft"@ {
        Some(pick('[', '{'))
    } else if code == "BracketRight"@ {
        Some(pick(']', '}'))
    } else if code == "Backslash"@ {
        Some(pick('\\', '|'))
    } else if code == "Semicolon"@ {
        Some(pick(';', ':'))
    } else if code == "Quote"@ {
        Some(pick('\'', '"'))
    } else if code == "Comma"@ {
        Some(pick(',', '<'))
    } else if code == "Period"@ {
        Some(pick('.', '>'))
    } else if code == "Slash"@ {
        Some(pick('/', '?'))
    } else if code == "Backquote"@ {
        Some(pick('`', '~'))
    } else if code == "NumpadDivide"@ && !shift {
        Some('/')
    } else if code == "NumpadMultiply"@ && !shift {
        Some('*')
    } else if code == "NumpadSubtract"@ && !shift {
        Some('-')
    } else if code == "NumpadAdd"@ && !shift {
        Some('+')
    } else if code == "NumpadDecimal"@ && !shift {
        Some('.')
    } else {
        None
    }
}

/// The character a DOM key code types on a US layout, for letters, digits
/// and punctuation (these are injected as text).
pub open spec fn spec_printable_latin(code: Seq<char>, shift: bool) -> Option<char> {
    if starts_with(code, "Key"@) && code.len() == 4 && is_ascii(code[3]) && is_ascii_alpha(code[3]) {
        Some(if shift { upper_char(code[3]) } else { lower_char(code[3]) })
    } else if starts_with(code, "Digit"@) && code.len() == 6 && is_ascii(code[5]) && !shift {
        Some(code[5])
    } else if starts_with(code, "Digit"@) && shift {
        shifted_digit_of(code.skip(5))
    } else {
        punctuation(code, shift)
    }
}

/// Shifted character of the digit after "Digit".
pub open spec fn shifted_digit_of(rest: Seq<char>) -> Option<char> {
    if rest.len() == 1 {
        shifted_digit(rest[0])
    } else {
        None
    }
}

fn pick(shift: bool, a: char, b: char) -> (r: char)
    ensures
        r == (if shift { b } else { a }),
{
    if shift {
        b
    } else {
        a
    }
}

fn punctuation_exec(code: &[char], shift: bool) -> (r: Option<char>)
    ensures
        r == punctuation(code@, shift),
{
    if eq_str(code, "Space") {
        Some(' ')
    } else if eq_str(code, "Minus") {
        Some(pick(shift, '-', '_'))
    } else if eq_str(code, "Equal") {
        Some(pick(shift, '=', '+'))
    } else if eq_str(code, "BracketLeft") {
        Some(pick(shift, '[', '{'))
    } else if eq_str(code, "BracketRight") {
        Some(pick(shift, ']', '}'))
    } else if eq_str(code, "Backslash") {
        Some(pick(shift, '\\', '|'))
    } else if eq_str(code, "Semicolon") {
        Some(pick(shift, ';', ':'))
    } else if eq_str(code, "Quote") {
        Some(pick(shift, '\'', '"'))
    } else if eq_str(code, "Comma") {
        Some(pick(shift, ',', '<'))
    } else if eq_str(code, "Period") {
        Some(pick(shift, '.', '>'))
    } else if eq_str(code, "Slash") {
        Some(pick(shift, '/', '?'))
    } else if eq_str(code, "Backquote") {
        Some(pick(shift, '`', '~'))
    } else if eq_str(code, "NumpadDivide") && !shift {
        Some('/')
    } else if eq_str(code, "NumpadMultiply") && !shift {
        Some('*')
    } else if eq_str(code, "NumpadSubtract") && !shift {
        Some('-')
    } else if eq_str(code, "NumpadAdd") && !shift {
        Some('+')
    } else if eq_str(code, "NumpadDecimal") && !shift {
        Some('.')
    } else {
        None
    }
}

fn shifted_digit_exec(d: char) -> (r: Option<char>)
    ensures
        r == shifted_digit(d),
{
    match d {
        '1' => Some('!'),
        '2' => Some('@'),
        '3' => Some('#'),
        '4' => Some('$'),
        '5' => Some('%'),
        '6' => Some('^'),
        '7' => Some('&'),
        '8' => Some('*'),
        '9' => Some('('),
        '0' => Some(')'),
        _ => None,
    }
}

fn is_ascii_alpha_exec(c: char) -> (r: bool)
    ensures
        r == is_ascii_alpha(c),
{
    ('a' <= c && c <= 'z') || ('A' <= c && c <= 'Z')
}

/// The character a DOM key code types on a US layout (letters by shift
/// state, digits and their shifted symbols, punctuation), if any.
pub fn printable_latin(code: &str, shift: bool) -> (r: Option<char>)
    ensures
        r == spec_printable_latin(code@, shift),
{
    let c = chars_of(code);
    let v = c.as_slice();
    if starts_with_str(v, "Key") && v.len() == 4 && (v[3] as u32) < 128 && is_ascii_alpha_exec(v[3]) {
        return Some(
            if shift {
                upper_char_exec(v[3])
            } else {
                lower_char_exec(v[3])
            },
        );
    }
    if starts_with_str(v, "Digit") && v.len() == 6 && (v[5] as u32) < 128 && !shift {
        return Some(v[5]);
    }
    if starts_with_str(v, "Digit") && shift {
        return if v.len() == 6 {
            proof {
                reveal_strlit("Key");
                reveal_strlit("Digit");
                assert(v@.subrange(0, 5) == "Digit"@);
                assert(v@.subrange(0, 5)[0] == v@[0]);
                assert(v@[0] == 'D');
                assert(code@.skip(5).len() == 1);
                assert(code@.skip(5)[0] == v@[5]);
            }
            shifted_digit_exec(v[5])
        } else {
            proof {
                reveal_strlit("Key");
                reveal_strlit("Digit");
                assert(v@.subrange(0, 5) == "Digit"@);
                assert(v@.subrange(0, 5)[0] == v@[0]);
                assert(v@[0] == 'D');
            }
            None
        };
    }
    punctuation_exec(v, shift)
}

/// Named (non-character) keys of a DOM key code.
pub open spec fn named_key(code: Seq<char>) -> Option<KeyCode> {
    if code == "Enter"@ || code == "NumpadEnter"@ {
        Some(KeyCode::Return)
    } else if code == "Escape"@ {
        Some(KeyCode::Escape)
    } else if code == "Backspace"@ {
        Some(KeyCode::Backspace)
    } else if code == "Tab"@ {
        Some(KeyCode::Tab)
    } else if code == "Space"@ {
        Some(KeyCode::Space)
    } else if code == "Delete"@ {
        Some(KeyCode::Delete)
    } else if code == "Home"@ {
        Some(KeyCode::Home)
    } else if code == "End"@ {
        Some(KeyCode::End)
    } else if code == "PageUp"@ {
        Some(KeyCode::PageUp)
    } else if code == "PageDown"@ {
        Some(KeyCode::PageDown)
    } else if code == "ArrowLeft"@ {
        Some(KeyCode::LeftArrow)
    } else if code == "ArrowRight"@ {
        Some(KeyCode::RightArrow)
    } else if code == "ArrowUp"@ {
        Some(KeyCode::UpArrow)
    } else if code == "ArrowDown"@ {
        Some(KeyCode::DownArrow)
    } else if code == "MetaLeft"@ || code == "MetaRight"@ || code == "OSLeft"@ || code == "OSRight"@ {
        Some(KeyCode::Meta)
    } else if code == "ControlLeft"@ || code == "ControlRight"@ {
        Some(KeyCode::Control)
    } else if code == "AltLeft"@ || code == "AltRight"@ {
        Some(KeyCode::Alt)
    } else if code == "ShiftLeft"@ || code == "ShiftRight"@ {
        Some(KeyCode::Shift)
    } else if code == "CapsLock"@ {
        Some(KeyCode::CapsLock)
    } else {
        None
    }
}

/// Number of a function key code "F1" to "F12".
pub open spec fn function_key(code: Seq<char>) -> Option<u8> {
    if code == "F1"@ {
        Some(1u8)
    } else if code == "F2"@ {
        Some(2u8)
    } else if code == "F3"@ {
        Some(3u8)
    } else if code == "F4"@ {
        Some(4u8)
    } else if code == "F5"@ {
        Some(5u8)
    } else if code == "F6"@ {
        Some(6u8)
    } else if code == "F7"@ {
        Some(7u8)
    } else if code == "F8"@ {
        Some(8u8)
    } else if code == "F9"@ {
        Some(9u8)
    } else if code == "F10"@ {
        Some(10u8)
    } else if code == "F11"@ {
        Some(11u8)
    } else if code == "F12"@ {
        Some(12u8)
    } else {
        None
    }
}

/// Character keys of numpad and punctuation codes.
pub open spec fn symbol_key(code: Seq<char>) -> Option<char> {
    if code == "Numpad0"@ {
        Some('0')
    } else if code == "Numpad1"@ {
        Some('1')
    } else if code == "Numpad2"@ {
        Some('2')
    } else if code == "Numpad3"@ {
        Some('3')
    } else if code == "Numpad4"@ {
        Some('4')
    } else if code == "Numpad5"@ {
        Some('5')
    } else if code == "Numpad6"@ {
        Some('6')
    } else if code == "Numpad7"@ {
        Some('7')
    } else if code == "Numpad8"@ {
        Some('8')
    } else if code == "Numpad9"@ {
        Some('9')
    } else if code == "NumpadAdd"@ {
        Some('+')
    } else if code == "NumpadSubtract"@ {
        Some('-')
    } else if code == "NumpadMultiply"@ {
        Some('*')
    } else if code == "NumpadDivide"@ {
        Some('/')
    } else if code == "NumpadDecimal"@ {
        Some('.')
    } else if code == "Minus"@ {
        Some('-')
    } else if code == "Equal"@ {
        Some('=')
    } else if code == "BracketLeft"@ {
        Some('[')
    } else if code == "BracketRight"@ {
        Some(']')
    } else if code == "Backslash"@ {
        Some('\\')
    } else if code == "Semicolon"@ {
        Some(';')
    } else if code == "Quote"@ {
        Some('\'')
    } else if code == "Comma"@ {
        Some(',')
    } else if code == "Period"@ {
        Some('.')
    } else if code == "Slash"@ {
        Some('/')
    } else if code == "Backquote"@ {
        Some('`')
    } else {
        None
    }
}

/// Key of a DOM key code: named keys, function keys, "KeyX" (lower-case
/// letter key), "DigitN", numpad and punctuation keys.
pub open spec fn spec_map_dom_key(code: Seq<char>) -> Option<KeyCode> {
    if named_key(code) is Some {
        named_key(code)
    } else if function_key(code) is Some {
        Some(KeyCode::F(function_key(code)->0))
    } else if starts_with(code, "Key"@) && code.len() == 4 && is_ascii(code[3]) {
        Some(KeyCode::Unicode(lower_char(code[3])))
    } else if starts_with(code, "Digit"@) && code.len() == 6 && is_ascii(code[5]) {
        Some(KeyCode::Unicode(code[5]))
    } else if symbol_key(code) is Some {
        Some(KeyCode::Unicode(symbol_key(code)->0))
    } else {
        None
    }
}

fn named_key_exec(c: &[char]) -> (r: Option<KeyCode>)
    ensures
        r == named_key(c@),
{
    if eq_str(c, "Enter") || eq_str(c, "NumpadEnter") {
        Some(KeyCode::Return)
    } else if eq_str(c, "Escape") {
        Some(KeyCode::Escape)
    } else if eq_str(c, "Backspace") {
        Some(KeyCode::Backspace)
    } else if eq_str(c, "Tab") {
        Some(KeyCode::Tab)
    } else if eq_str(c, "Space") {
        Some(KeyCode::Space)
    } else if eq_str(c, "Delete") {
        Some(KeyCode::Delete)
    } else if eq_str(c, "Home") {
        Some(KeyCode::Home)
    } else if eq_str(c, "End") {
        Some(KeyCode::End)
    } else if eq_str(c, "PageUp") {
        Some(KeyCode::PageUp)
    } else if eq_str(c, "PageDown") {
        Some(KeyCode::PageDown)
    } else if eq_str(c, "ArrowLeft") {
        Some(KeyCode::LeftArrow)
    } else if eq_str(c, "ArrowRight") {
        Some(KeyCode::RightArrow)
    } else if eq_str(c, "ArrowUp") {
        Some(KeyCode::UpArrow)
    } else if eq_str(c, "ArrowDown") {
        Some(KeyCode::DownArrow)
    } else if eq_str(c, "MetaLeft") || eq_str(c, "MetaRight") || eq_str(c, "OSLeft") || eq_str(
        c,
        "OSRight",
    ) {
        Some(KeyCode::Meta)
    } else if eq_str(c, "ControlLeft") || eq_str(c, "ControlRight") {
        Some(KeyCode::Control)
    } else if eq_str(c, "AltLeft") || eq_str(c, "AltRight") {
        Some(KeyCode::Alt)
    } else if eq_str(c, "ShiftLeft") || eq_str(c, "ShiftRight") {
        Some(KeyCode::Shift)
    } else if eq_str(c, "CapsLock") {
        Some(KeyCode::CapsLock)
    } else {
        None
    }
}

fn function_key_exec(c: &[char]) -> (r: Option<u8>)
    ensures
        r == function_key(c@),
{
    if eq_str(c, "F1") {
        Some(1)
    } else if eq_str(c, "F2") {
        Some(2)
    } else if eq_str(c, "F3") {
        Some(3)
    } else if eq_str(c, "F4") {
        Some(4)
    } else if eq_str(c, "F5") {
        Some(5)
    } else if eq_str(c, "F6") {
        Some(6)
    } else if eq_str(c, "F7") {
        Some(7)
    } else if eq_str(c, "F8") {
        Some(8)
    } else if eq_str(c, "F9") {
        Some(9)
    } else if eq_str(c, "F10") {
        Some(10)
    } else if eq_str(c, "F11") {
        Some(11)
    } else if eq_str(c, "F12") {
        Some(12)
    } else {
        None
    }
}

fn symbol_key_exec(c: &[char]) -> (r: Option<char>)
    ensures
        r == symbol_key(c@),
{
    if eq_str(c, "Numpad0") {
        Some('0')
    } else if eq_str(c, "Numpad1") {
        Some('1')
    } else if eq_str(c, "Numpad2") {
        Some('2')
    } else if eq_str(c, "Numpad3") {
        Some('3')
    } else if eq_str(c, "Numpad4") {
        Some('4')
    } else if eq_str(c, "Numpad5") {
        Some('5')
    } else if eq_str(c, "Numpad6") {
        Some('6')
    } else if eq_str(c, "Numpad7") {
        Some('7')
    } else if eq_str(c, "Numpad8") {
        Some('8')
    } else if eq_str(c, "Numpad9") {
        Some('9')
    } else if eq_str(c, "NumpadAdd") {
        Some('+')
    } else if eq_str(c, "NumpadSubtract") {
        Some('-')
    } else if eq_str(c, "NumpadMultiply") {
        Some('*')
    } else if eq_str(c, "NumpadDivide") {
        Some('/')
    } else if eq_str(c, "NumpadDecimal") {
        Some('.')
    } else if eq_str(c, "Minus") {
        Some('-')
    } else if eq_str(c, "Equal") {
        Some('=')
    } else if eq_str(c, "BracketLeft") {
        Some('[')
    } else if eq_str(c, "BracketRight") {
        Some(']')
    } else if eq_str(c, "Backslash") {
        Some('\\')
    } else if eq_str(c, "Semicolon") {
        Some(';')
    } else if eq_str(c, "Quote") {
        Some('\'')
    } else if eq_str(c, "Comma") {
        Some(',')
    } else if eq_str(c, "Period") {
        Some('.')
    } else if eq_str(c, "Slash") {
        Some('/')
    } else if eq_str(c, "Backquote") {
        Some('`')
    } else {
        None
    }
}

/// Key of a DOM key code, if it has one.
pub fn map_dom_key(code: &str) -> (r: Option<KeyCode>)
    ensures
        r == spec_map_dom_key(code@),
{
    let c = chars_of(code);
    let v = c.as_slice();
    if let Some(k) = named_key_exec(v) {
        return Some(k);
    }
    if let Some(n) = function_key_exec(v) {
        return Some(KeyCode::F(n));
    }
    if starts_with_str(v, "Key") && v.len() == 4 && (v[3] as u32) < 128 {
        return Some(KeyCode::Unicode(lower_char_exec(v[3])));
    }
    if starts_with_str(v, "Digit") && v.len() == 6 && (v[5] as u32) < 128 {
        return Some(KeyCode::Unicode(v[5]));
    }
    match symbol_key_exec(v) {
        Some(ch) => Some(KeyCode::Unicode(ch)),
        None => None,
    }
}

/// How a key press is injected.
#[derive(Debug)]
pub enum KeyPlan {
    /// Type this character as text.
    Type(char),
    /// Press the modifiers, click the key, release the modifiers.
    Chord { key: KeyCode, meta: bool, ctrl: bool, alt: bool, shift: bool },
}

/// Plan of a key press: printable keys without Cmd/Ctrl/Alt are typed as
/// text, other keys are pressed; an unknown code is an error naming it.
pub open spec fn spec_key_plan(ev: KeyEvent) -> Result<KeyPlan, Seq<char>> {
    match spec_printable_latin(ev.code@, ev.shift) {
        Some(ch) if !ev.meta && !ev.ctrl && !ev.alt => Ok(KeyPlan::Type(ch)),
        _ => match spec_map_dom_key(ev.code@) {
            Some(k) => Ok(
                KeyPlan::Chord { key: k, meta: ev.meta, ctrl: ev.ctrl, alt: ev.alt, shift: ev.shift },
            ),
            None => Err("unmapped key code: "@ + ev.code@),
        },
    }
}

/// Plan of a key press (the error is the message of the injector's error).
pub fn key_plan(ev: &KeyEvent) -> (r: Result<KeyPlan, String>)
    ensures
        match (r, spec_key_plan(*ev)) {
            (Ok(p), Ok(q)) => p == q,
            (Err(m), Err(n)) => m@ == n,
            _ => false,
        },
{
    if let Some(ch) = printable_latin(ev.code.as_str(), ev.shift) {
        if !ev.meta && !ev.ctrl && !ev.alt {
            return Ok(KeyPlan::Type(ch));
        }
    }
    match map_dom_key(ev.code.as_str()) {
        Some(k) => Ok(KeyPlan::Chord { key: k, meta: ev.meta, ctrl: ev.ctrl, alt: ev.alt, shift: ev.shift }),
        None => {
            let mut m = chars_of("unmapped key code: ");
            push_str_chars(&mut m, ev.code.as_str());
            Err(string_of(m.as_slice()))
        },
    }
}

/// Whether the target must be raised before injecting: not when the same
/// route was raised less than `ttl_ms` ago.
pub fn raise_needed(cached: Option<(i64, u64)>, route: i64, ttl_ms: u64) -> (r: bool)
    ensures
        r == !(cached matches Some((c, age)) && c == route && age < ttl_ms),
{
    match cached {
        Some((c, age)) => !(c == route && age < ttl_ms),
        None => true,
    }
}

/// Mouse event of the macOS event API.
#[derive(Debug, Clone, Copy, PartialEq, Eq, Structural)]
pub enum CgMouseEvent {
    LeftDown,
    LeftUp,
    LeftDragged,
    RightDown,
    RightUp,
    RightDragged,
    OtherDown,
    OtherUp,
    OtherDragged,
}

/// What a pointer event becomes on macOS: the event type and its button,
/// the button number field (0 left, 1 right, 2 middle) and the click state
/// (the click count within 1 to 3).
#[derive(Debug, Clone, Copy, PartialEq, Eq, Structural)]
pub struct CgMousePlan {
    pub event: CgMouseEvent,
    pub button: ButtonKind,
    pub button_number: i64,
    pub click_state: i64,
}

pub open spec fn spec_cg_event(phase: MousePhase, button: ButtonKind) -> CgMouseEvent {
    match button {
        ButtonKind::Middle => match phase {
            MousePhase::Down => CgMouseEvent::OtherDown,
            MousePhase::Up => CgMouseEvent::OtherUp,
            MousePhase::Move => CgMouseEvent::OtherDragged,
        },
        ButtonKind::Right => match phase {
            MousePhase::Down => CgMouseEvent::RightDown,
            MousePhase::Up => CgMouseEvent::RightUp,
            MousePhase::Move => CgMouseEvent::RightDragged,
        },
        ButtonKind::Left => match phase {
            MousePhase::Down => CgMouseEvent::LeftDown,
            MousePhase::Up => CgMouseEvent::LeftUp,
            MousePhase::Move => CgMouseEvent::LeftDragged,
        },
    }
}

/// The macOS event of a pointer event with browser button `button`.
pub fn cg_mouse_plan(phase: MousePhase, button: i32, click_count: i32) -> (r: CgMousePlan)
    ensures
        r.button == spec_map_button(button),
        r.event == spec_cg_event(phase, spec_map_button(button)),
        r.button_number == (match spec_map_button(button) {
            ButtonKind::Left => 0int,
            ButtonKind::Right => 1int,
            ButtonKind::Middle => 2int,
        }),
        r.click_state == (if click_count < 1 { 1int } else if click_count > 3 { 3int } else { click_count as int }),
{
    let b = map_button(button);
    let event = match b {
        ButtonKind::Middle => match phase {
            MousePhase::Down => CgMouseEvent::OtherDown,
            MousePhase::Up => CgMouseEvent::OtherUp,
            MousePhase::Move => CgMouseEvent::OtherDragged,
        },
        ButtonKind::Right => match phase {
            MousePhase::Down => CgMouseEvent::RightDown,
            MousePhase::Up => CgMouseEvent::RightUp,
            MousePhase::Move => CgMouseEvent::RightDragged,
        },
        ButtonKind::Left => match phase {
            MousePhase::Down => CgMouseEvent::LeftDown,
            MousePhase::Up => CgMouseEvent::LeftUp,
            MousePhase::Move => CgMouseEvent::LeftDragged,
        },
    };
    let button_number: i64 = match b {
        ButtonKind::Left => 0,
        ButtonKind::Right => 1,
        ButtonKind::Middle => 2,
    };
    let click_state: i64 = if click_count < 1 {
        1
    } else if click_count > 3 {
        3
    } else {
        click_count as i64
    };
    CgMousePlan { event, button: b, button_number, click_state }
}

/// Characters posted per Unicode keyboard event (the event API's practical
/// limit).
pub const UNICODE_CHUNK: usize = 16;

/// Text cut into pieces of `UNICODE_CHUNK` characters, in order (the last
/// may be shorter; empty text gives none).
pub open spec fn unicode_chunks(s: Seq<char>) -> Seq<Seq<char>>
    decreases s.len(),
{
    if s.len() == 0 {
        Seq::empty()
    } else if s.len() <= UNICODE_CHUNK {
        seq![s]
    } else {
        seq![s.take(UNICODE_CHUNK as int)] + unicode_chunks(s.skip(UNICODE_CHUNK as int))
    }
}

/// The pieces in which text is typed through Unicode keyboard events.
pub fn unicode_chunks_exec(s: &str) -> (r: Vec<String>)
    ensures
        crate::config::strs(r@) == unicode_chunks(s@),
{
    let c = chars_of(s);
    let mut out: Vec<String> = Vec::new();
    let mut i: usize = 0;
    assert(c@.skip(0) =~= c@);
    while i < c.len()
        invariant
            i <= c@.len(),
            crate::config::strs(out@) + unicode_chunks(c@.skip(i as int)) == unicode_chunks(c@),
        decreases c@.len() - i,
    {
        let ghost rest = c@.skip(i as int);
        let end: usize = if c.len() - i <= UNICODE_CHUNK { c.len() } else { i + UNICODE_CHUNK };
        let piece = crate::text::slice_chars(c.as_slice(), i, end);
        let ghost before = out@;
        out.push(string_of(piece.as_slice()));
        proof {
            assert(crate::config::strs(out@) =~= crate::config::strs(before).push(piece@));
            if c@.len() - i <= UNICODE_CHUNK {
                assert(piece@ =~= rest);
                assert(c@.skip(end as int) =~= Seq::<char>::empty());
                assert(unicode_chunks(c@.skip(end as int)) =~= Seq::<Seq<char>>::empty());
                assert(unicode_chunks(rest) =~= seq![rest]);
            } else {
                assert(piece@ =~= rest.take(UNICODE_CHUNK as int));
                assert(rest.skip(UNICODE_CHUNK as int) =~= c@.skip(end as int));
            }
            assert(crate::config::strs(before) + unicode_chunks(rest) =~= crate::config::strs(out@)
                + unicode_chunks(c@.skip(end as int)));
        }
        i = end;
    }
    assert(c@.skip(i as int) =~= Seq::<char>::empty());
    assert(crate::config::strs(out@) + Seq::<Seq<char>>::empty() =~= crate::config::strs(out@));
    out
}

/// Each named key is pressed for exactly its own DOM codes: the arrow codes
/// for the arrow of the same direction, `Enter` and `NumpadEnter` for
/// Return, the left and right variants of a modifier for that modifier, and
/// each other named code for its key; no other code presses any of them.
pub proof fn lemma_named_keys(code: Seq<char>)
    ensures
        ({
            let m = spec_map_dom_key(code);
            &&& (m == Some(KeyCode::LeftArrow)) == (code == "ArrowLeft"@)
            &&& (m == Some(KeyCode::RightArrow)) == (code == "ArrowRight"@)
            &&& (m == Some(KeyCode::UpArrow)) == (code == "ArrowUp"@)
            &&& (m == Some(KeyCode::DownArrow)) == (code == "ArrowDown"@)
            &&& (m == Some(KeyCode::Return)) == (code == "Enter"@ || code == "NumpadEnter"@)
            &&& (m == Some(KeyCode::Escape)) == (code == "Escape"@)
            &&& (m == Some(KeyCode::Backspace)) == (code == "Backspace"@)
            &&& (m == Some(KeyCode::Tab)) == (code == "Tab"@)
            &&& (m == Some(KeyCode::Space)) == (code == "Space"@)
            &&& (m == Some(KeyCode::Delete)) == (code == "Delete"@)
            &&& (m == Some(KeyCode::Home)) == (code == "Home"@)
            &&& (m == Some(KeyCode::End)) == (code == "End"@)
            &&& (m == Some(KeyCode::PageUp)) == (code == "PageUp"@)
            &&& (m == Some(KeyCode::PageDown)) == (code == "PageDown"@)
            &&& (m == Some(KeyCode::Meta)) == (code == "MetaLeft"@ || code == "MetaRight"@ || code == "OSLeft"@
                || code == "OSRight"@)
            &&& (m == Some(KeyCode::Control)) == (code == "ControlLeft"@ || code == "ControlRight"@)
            &&& (m == Some(KeyCode::Alt)) == (code == "AltLeft"@ || code == "AltRight"@)
            &&& (m == Some(KeyCode::Shift)) == (code == "ShiftLeft"@ || code == "ShiftRight"@)
            &&& (m == Some(KeyCode::CapsLock)) == (code == "CapsLock"@)
        }),
{
    reveal_strlit("Enter");
    assert("Enter"@.len() == 5);
    reveal_strlit("NumpadEnter");
    assert("NumpadEnter"@.len() == 11);
    reveal_strlit("Escape");
    assert("Escape"@.len() == 6);
    reveal_strlit("Backspace");
    assert("Backspace"@.len() == 9);
    reveal_strlit("Tab");
    assert("Tab"@.len() == 3);
    reveal_strlit("Space");
    assert("Space"@.len() == 5);
    reveal_strlit("Delete");
    assert("Delete"@.len() == 6);
    reveal_strlit("Home");
    assert("Home"@.len() == 4);
    reveal_strlit("End");
    assert("End"@.len() == 3);
    reveal_strlit("PageUp");
    assert("PageUp"@.len() == 6);
    reveal_strlit("PageDown");
    assert("PageDown"@.len() == 8);
    reveal_strlit("ArrowLeft");
    assert("ArrowLeft"@.len() == 9);
    reveal_strlit("ArrowRight");
    assert("ArrowRight"@.len() == 10);
    reveal_strlit("ArrowUp");
    assert("ArrowUp"@.len() == 7);
    reveal_strlit("ArrowDown");
    assert("ArrowDown"@.len() == 9);
    reveal_strlit("MetaLeft");
    assert("MetaLeft"@.len() == 8);
    reveal_strlit("MetaRight");
    assert("MetaRight"@.len() == 9);
    reveal_strlit("OSLeft");
    assert("OSLeft"@.len() == 6);
    reveal_strlit("OSRight");
    assert("OSRight"@.len() == 7);
    reveal_strlit("ControlLeft");
    assert("ControlLeft"@.len() == 11);
    reveal_strlit("ControlRight");
    assert("ControlRight"@.len() == 12);
    reveal_strlit("AltLeft");
    assert("AltLeft"@.len() == 7);
    reveal_strlit("AltRight");
    assert("AltRight"@.len() == 8);
    reveal_strlit("ShiftLeft");
    assert("ShiftLeft"@.len() == 9);
    reveal_strlit("ShiftRight");
    assert("ShiftRight"@.len() == 10);
    reveal_strlit("CapsLock");
    assert("CapsLock"@.len() == 8);
    assert("Enter"@[0] != "Space"@[0]);
    assert("Escape"@[0] != "Delete"@[0]);
    assert("Tab"@[0] != "End"@[0]);
    assert("Escape"@[0] != "PageUp"@[0]);
    assert("Delete"@[0] != "PageUp"@[0]);
    assert("Backspace"@[0] != "ArrowLeft"@[0]);
    assert("Backspace"@[0] != "ArrowDown"@[0]);
    assert("ArrowLeft"@[5] != "ArrowDown"@[5]);
    assert("PageDown"@[0] != "MetaLeft"@[0]);
    assert("Backspace"@[0] != "MetaRight"@[0]);
    assert("ArrowLeft"@[0] != "MetaRight"@[0]);
    assert("ArrowDown"@[0] != "MetaRight"@[0]);
    assert("Escape"@[0] != "OSLeft"@[0]);
    assert("Delete"@[0] != "OSLeft"@[0]);
    assert("PageUp"@[0] != "OSLeft"@[0]);
    assert("ArrowUp"@[0] != "OSRight"@[0]);
    assert("NumpadEnter"@[0] != "ControlLeft"@[0]);
    assert("ArrowUp"@[1] != "AltLeft"@[1]);
    assert("OSRight"@[0] != "AltLeft"@[0]);
    assert("PageDown"@[0] != "AltRight"@[0]);
    assert("MetaLeft"@[0] != "AltRight"@[0]);
    assert("Backspace"@[0] != "ShiftLeft"@[0]);
    assert("ArrowLeft"@[0] != "ShiftLeft"@[0]);
    assert("ArrowDown"@[0] != "ShiftLeft"@[0]);
    assert("MetaRight"@[0] != "ShiftLeft"@[0]);
    assert("ArrowRight"@[0] != "ShiftRight"@[0]);
    assert("PageDown"@[0] != "CapsLock"@[0]);
    assert("MetaLeft"@[0] != "CapsLock"@[0]);
    assert("AltRight"@[0] != "CapsLock"@[0]);
}

/// An arrow key press is sent as a chord on the arrow of the same
/// direction, with the modifiers as pressed (arrows never type a
/// character).
pub proof fn lemma_arrow_key_plan(ev: KeyEvent)
    ensures
        ({
            let chord = |k: KeyCode| Ok::<KeyPlan, Seq<char>>(
                KeyPlan::Chord { key: k, meta: ev.meta, ctrl: ev.ctrl, alt: ev.alt, shift: ev.shift },
            );
            &&& ev.code@ == "ArrowLeft"@ ==> spec_key_plan(ev) == chord(KeyCode::LeftArrow)
            &&& ev.code@ == "ArrowRight"@ ==> spec_key_plan(ev) == chord(KeyCode::RightArrow)
            &&& ev.code@ == "ArrowUp"@ ==> spec_key_plan(ev) == chord(KeyCode::UpArrow)
            &&& ev.code@ == "ArrowDown"@ ==> spec_key_plan(ev) == chord(KeyCode::DownArrow)
        }),
{
    let c = ev.code@;
    reveal_strlit("Key");
    reveal_strlit("Digit");
    reveal_strlit("Space");
    assert("Space"@.len() == 5 && "Space"@[0] != 'A');
    reveal_strlit("Minus");
    assert("Minus"@.len() == 5 && "Minus"@[0] != 'A');
    reveal_strlit("Equal");
    assert("Equal"@.len() == 5 && "Equal"@[0] != 'A');
    reveal_strlit("BracketLeft");
    assert("BracketLeft"@.len() == 11 && "BracketLeft"@[0] != 'A');
    reveal_strlit("BracketRight");
    assert("BracketRight"@.len() == 12 && "BracketRight"@[0] != 'A');
    reveal_strlit("Backslash");
    assert("Backslash"@.len() == 9 && "Backslash"@[0] != 'A');
    reveal_strlit("Semicolon");
    assert("Semicolon"@.len() == 9 && "Semicolon"@[0] != 'A');
    reveal_strlit("Quote");
    assert("Quote"@.len() == 5 && "Quote"@[0] != 'A');
    reveal_strlit("Comma");
    assert("Comma"@.len() == 5 && "Comma"@[0] != 'A');
    reveal_strlit("Period");
    assert("Period"@.len() == 6 && "Period"@[0] != 'A');
    reveal_strlit("Slash");
    assert("Slash"@.len() == 5 && "Slash"@[0] != 'A');
    reveal_strlit("Backquote");
    assert("Backquote"@.len() == 9 && "Backquote"@[0] != 'A');
    reveal_strlit("NumpadDivide");
    assert("NumpadDivide"@.len() == 12 && "NumpadDivide"@[0] != 'A');
    reveal_strlit("NumpadMultiply");
    assert("NumpadMultiply"@.len() == 14 && "NumpadMultiply"@[0] != 'A');
    reveal_strlit("NumpadSubtract");
    assert("NumpadSubtract"@.len() == 14 && "NumpadSubtract"@[0] != 'A');
    reveal_strlit("NumpadAdd");
    assert("NumpadAdd"@.len() == 9 && "NumpadAdd"@[0] != 'A');
    reveal_strlit("NumpadDecimal");
    assert("NumpadDecimal"@.len() == 13 && "NumpadDecimal"@[0] != 'A');
    reveal_strlit("ArrowLeft");
    assert("ArrowLeft"@.len() == 9 && "ArrowLeft"@[0] == 'A');
    reveal_strlit("ArrowRight");
    assert("ArrowRight"@.len() == 10 && "ArrowRight"@[0] == 'A');
    reveal_strlit("ArrowUp");
    assert("ArrowUp"@.len() == 7 && "ArrowUp"@[0] == 'A');
    reveal_strlit("ArrowDown");
    assert("ArrowDown"@.len() == 9 && "ArrowDown"@[0] == 'A');
    if c == "ArrowLeft"@ || c == "ArrowRight"@ || c == "ArrowUp"@ || c == "ArrowDown"@ {
        assert(c.subrange(0, 3)[0] != "Key"@[0]);
        assert(c.len() < 5 || c.subrange(0, 5)[0] != "Digit"@[0]);
        assert(spec_printable_latin(c, ev.shift) is None);
        lemma_named_keys(c);
    }
}

/// Letter and digit codes press the key of their character: `KeyX` the
/// lower-case letter (whatever the case of `X`), `DigitN` the digit; the
/// function key codes `F1` to `F12` press that function key.
pub proof fn lemma_character_keys(c: char)
    ensures
        is_ascii(c) ==> spec_map_dom_key("Key"@ + seq![c]) == Some(KeyCode::Unicode(lower_char(c))),
        is_ascii(c) ==> spec_map_dom_key("Digit"@ + seq![c]) == Some(KeyCode::Unicode(c)),
        '1' <= c <= '9' ==> spec_map_dom_key(seq!['F', c]) == Some(KeyCode::F(((c as u32) - 48) as u8)),
        spec_map_dom_key("F10"@) == Some(KeyCode::F(10)),
        spec_map_dom_key("F11"@) == Some(KeyCode::F(11)),
        spec_map_dom_key("F12"@) == Some(KeyCode::F(12)),
{
    reveal_strlit("Enter");
    assert("Enter"@.len() == 5);
    reveal_strlit("NumpadEnter");
    assert("NumpadEnter"@.len() == 11);
    reveal_strlit("Escape");
    assert("Escape"@.len() == 6);
    reveal_strlit("Backspace");
    assert("Backspace"@.len() == 9);
    reveal_strlit("Tab");
    assert("Tab"@.len() == 3);
    reveal_strlit("Space");
    assert("Space"@.len() == 5);
    reveal_strlit("Delete");
    assert("Delete"@.len() == 6);
    reveal_strlit("Home");
    assert("Home"@.len() == 4);
    reveal_strlit("End");
    assert("End"@.len() == 3);
    reveal_strlit("PageUp");
    assert("PageUp"@.len() == 6);
    reveal_strlit("PageDown");
    assert("PageDown"@.len() == 8);
    reveal_strlit("ArrowLeft");
    assert("ArrowLeft"@.len() == 9);
    reveal_strlit("ArrowRight");
    assert("ArrowRight"@.len() == 10);
    reveal_strlit("ArrowUp");
    assert("ArrowUp"@.len() == 7);
    reveal_strlit("ArrowDown");
    assert("ArrowDown"@.len() == 9);
    reveal_strlit("MetaLeft");
    assert("MetaLeft"@.len() == 8);
    reveal_strlit("MetaRight");
    assert("MetaRight"@.len() == 9);
    reveal_strlit("OSLeft");
    assert("OSLeft"@.len() == 6);
    reveal_strlit("OSRight");
    assert("OSRight"@.len() == 7);
    reveal_strlit("ControlLeft");
    assert("ControlLeft"@.len() == 11);
    reveal_strlit("ControlRight");
    assert("ControlRight"@.len() == 12);
    reveal_strlit("AltLeft");
    assert("AltLeft"@.len() == 7);
    reveal_strlit("AltRight");
    assert("AltRight"@.len() == 8);
    reveal_strlit("ShiftLeft");
    assert("ShiftLeft"@.len() == 9);
    reveal_strlit("ShiftRight");
    assert("ShiftRight"@.len() == 10);
    reveal_strlit("CapsLock");
    assert("CapsLock"@.len() == 8);
    reveal_strlit("F1");
    assert("F1"@.len() == 2);
    reveal_strlit("F2");
    assert("F2"@.len() == 2);
    reveal_strlit("F3");
    assert("F3"@.len() == 2);
    reveal_strlit("F4");
    assert("F4"@.len() == 2);
    reveal_strlit("F5");
    assert("F5"@.len() == 2);
    reveal_strlit("F6");
    assert("F6"@.len() == 2);
    reveal_strlit("F7");
    assert("F7"@.len() == 2);
    reveal_strlit("F8");
    assert("F8"@.len() == 2);
    reveal_strlit("F9");
    assert("F9"@.len() == 2);
    reveal_strlit("F10");
    assert("F10"@.len() == 3);
    reveal_strlit("F11");
    assert("F11"@.len() == 3);
    reveal_strlit("F12");
    assert("F12"@.len() == 3);
    reveal_strlit("Key");
    assert("Key"@.len() == 3);
    reveal_strlit("Digit");
    assert("Digit"@.len() == 5);
    let k = "Key"@ + seq![c];
    let d = "Digit"@ + seq![c];
    let f = seq!['F', c];
    assert(k.subrange(0, 3) =~= "Key"@ && k[3] == c && k[0] == 'K');
    assert(d.subrange(0, 5) =~= "Digit"@ && d[5] == c && d[0] == 'D' && d[1] == 'i');
    assert("Home"@[0] == 'H' && "Delete"@[1] == 'e');
    assert("Escape"@[0] == 'E' && "PageUp"@[0] == 'P' && "OSLeft"@[0] == 'O');
    assert("Tab"@[0] == 'T' && "End"@[0] == 'E');
    assert(f[0] == 'F' && f[1] == c);
    assert("F1"@[1] == '1' && "F2"@[1] == '2' && "F3"@[1] == '3' && "F4"@[1] == '4' && "F5"@[1] == '5');
    assert("F6"@[1] == '6' && "F7"@[1] == '7' && "F8"@[1] == '8' && "F9"@[1] == '9');
    assert("F10"@[2] == '0' && "F11"@[2] == '1' && "F12"@[2] == '2');
    if '1' <= c <= '9' {
        assert(f == seq!['F', c]);
        if c == '1' { assert(f =~= "F1"@); }
        if c == '2' { assert(f =~= "F2"@); }
        if c == '3' { assert(f =~= "F3"@); }
        if c == '4' { assert(f =~= "F4"@); }
        if c == '5' { assert(f =~= "F5"@); }
        if c == '6' { assert(f =~= "F6"@); }
        if c == '7' { assert(f =~= "F7"@); }
        if c == '8' { assert(f =~= "F8"@); }
        if c == '9' { assert(f =~= "F9"@); }
    }
}

} // verus!
