//! Keyboard, paste and selection input translation.
//!
//! Everything here maps user input to the bytes a shell expects on its
//! PTY, or folds pointer events into a selection state.
use vstd::prelude::*;
use vstd::string::StringSliceAdditionalSpecFns;

verus! {

/// AppKit's `NSUpArrowFunctionKey`.
pub const UP_ARROW_FUNCTION_KEY: u32 = 0xF700;
/// AppKit's `NSDownArrowFunctionKey`.
pub const DOWN_ARROW_FUNCTION_KEY: u32 = 0xF701;
/// AppKit's `NSLeftArrowFunctionKey`.
pub const LEFT_ARROW_FUNCTION_KEY: u32 = 0xF702;
/// AppKit's `NSRightArrowFunctionKey`.
pub const RIGHT_ARROW_FUNCTION_KEY: u32 = 0xF703;
/// AppKit's `NSF1FunctionKey`; F2 through F12 follow it consecutively.
pub const F1_FUNCTION_KEY: u32 = 0xF704;
/// AppKit's `NSF12FunctionKey`.
pub const F12_FUNCTION_KEY: u32 = 0xF70F;
/// AppKit's `NSDeleteFunctionKey` (forward delete).
pub const DELETE_FUNCTION_KEY: u32 = 0xF728;
/// AppKit's `NSHomeFunctionKey`.
pub const HOME_FUNCTION_KEY: u32 = 0xF729;
/// AppKit's `NSEndFunctionKey`.
pub const END_FUNCTION_KEY: u32 = 0xF72B;
/// AppKit's `NSPageUpFunctionKey`.
pub const PAGE_UP_FUNCTION_KEY: u32 = 0xF72C;
/// AppKit's `NSPageDownFunctionKey`.
pub const PAGE_DOWN_FUNCTION_KEY: u32 = 0xF72D;

/// The three phases of a pointer drag that builds a selection.
#[derive(Clone, Copy, Debug, PartialEq, Eq, Structural)]
pub enum SelectionPhase {
    Start,
    Update,
    End,
}

/// Modifier keys held while a key was pressed.
#[derive(Clone, Copy, Debug, Default, PartialEq, Eq, Structural)]
pub struct InputModifiers {
    pub shift: bool,
    pub control: bool,
    pub option: bool,
    pub command: bool,
}

/// A non-text key that maps to a terminal escape sequence.
#[derive(Clone, Copy, Debug, PartialEq, Eq, Structural)]
pub enum SpecialKey {
    ArrowUp,
    ArrowDown,
    ArrowRight,
    ArrowLeft,
    Home,
    End,
    PageUp,
    PageDown,
    Delete,
    F(u8),
}

/// ESC, the first byte of every escape sequence.
pub open spec fn esc() -> u8 {
    0x1b
}

/// The ASCII decimal digits of `n`, most significant first, without leading zeros.
pub open spec fn decimal_digits(n: nat) -> Seq<u8>
    decreases n,
{
    if n < 10 {
        seq![(48 + n) as u8]
    } else {
        decimal_digits(n / 10).push((48 + n % 10) as u8)
    }
}

/// The bytes that the start of a bracketed paste is wrapped in: `ESC [ 200 ~`.
pub open spec fn paste_start() -> Seq<u8> {
    seq![esc(), 91u8, 50u8, 48u8, 48u8, 126u8]
}

/// The bytes that the end of a bracketed paste is wrapped in: `ESC [ 201 ~`.
pub open spec fn paste_end() -> Seq<u8> {
    seq![esc(), 91u8, 50u8, 48u8, 49u8, 126u8]
}

/// What a paste of `text` sends to the PTY.
pub open spec fn paste_bytes(text: Seq<u8>, bracketed: bool) -> Seq<u8> {
    if bracketed {
        paste_start() + text + paste_end()
    } else {
        text
    }
}

/// The key that an AppKit character code stands for, if it is one of the special keys.
pub open spec fn special_key_of(ch: u32) -> Option<SpecialKey> {
    if ch == UP_ARROW_FUNCTION_KEY {
        Some(SpecialKey::ArrowUp)
    } else if ch == DOWN_ARROW_FUNCTION_KEY {
        Some(SpecialKey::ArrowDown)
    } else if ch == RIGHT_ARROW_FUNCTION_KEY {
        Some(SpecialKey::ArrowRight)
    } else if ch == LEFT_ARROW_FUNCTION_KEY {
        Some(SpecialKey::ArrowLeft)
    } else if ch == HOME_FUNCTION_KEY {
        Some(SpecialKey::Home)
    } else if ch == END_FUNCTION_KEY {
        Some(SpecialKey::End)
    } else if ch == PAGE_UP_FUNCTION_KEY {
        Some(SpecialKey::PageUp)
    } else if ch == PAGE_DOWN_FUNCTION_KEY {
        Some(SpecialKey::PageDown)
    } else if ch == DELETE_FUNCTION_KEY {
        Some(SpecialKey::Delete)
    } else if F1_FUNCTION_KEY <= ch <= F12_FUNCTION_KEY {
        Some(SpecialKey::F((ch - F1_FUNCTION_KEY + 1) as u8))
    } else {
        None
    }
}

/// The xterm modifier parameter: 1 plus 1 for shift, 2 for option and 4 for control;
/// absent when no such modifier is held.
pub open spec fn modifier_value(modifiers: InputModifiers) -> Option<u8> {
    let value = 1 + (if modifiers.shift { 1int } else { 0 }) + (if modifiers.option { 2int } else { 0 })
        + (if modifiers.control { 4int } else { 0 });
    if value == 1 {
        None
    } else {
        Some(value as u8)
    }
}

/// `ESC [ 1 ; <modifier> <final>`.
pub open spec fn modified_csi_key(final_byte: u8, modifier: u8) -> Seq<u8> {
    seq![esc(), 91u8, 49u8, 59u8] + decimal_digits(modifier as nat) + seq![final_byte]
}

/// Cursor keys: CSI form when modified, SS3 form in application cursor mode, CSI form otherwise.
pub open spec fn cursor_key_bytes(final_byte: u8, modifier: Option<u8>, application_cursor: bool) -> Seq<
    u8,
> {
    match modifier {
        Some(m) => modified_csi_key(final_byte, m),
        None => if application_cursor {
            seq![esc(), 79u8, final_byte]
        } else {
            seq![esc(), 91u8, final_byte]
        },
    }
}

/// F1 to F4: SS3 form unless modified.
pub open spec fn ss3_key_bytes(final_byte: u8, modifier: Option<u8>) -> Seq<u8> {
    match modifier {
        Some(m) => modified_csi_key(final_byte, m),
        None => seq![esc(), 79u8, final_byte],
    }
}

/// `ESC [ <code> ~`, or `ESC [ <code> ; <modifier> ~` when modified.
pub open spec fn tilde_key_bytes(code: u8, modifier: Option<u8>) -> Seq<u8> {
    match modifier {
        Some(m) => seq![esc(), 91u8] + decimal_digits(code as nat) + seq![59u8] + decimal_digits(
            m as nat,
        ) + seq![126u8],
        None => seq![esc(), 91u8] + decimal_digits(code as nat) + seq![126u8],
    }
}

/// The escape sequence that a special key sends.
pub open spec fn special_key_bytes(
    key: SpecialKey,
    modifiers: InputModifiers,
    application_cursor: bool,
) -> Seq<u8> {
    let m = modifier_value(modifiers);
    match key {
        SpecialKey::ArrowUp => cursor_key_bytes(65, m, application_cursor),
        SpecialKey::ArrowDown => cursor_key_bytes(66, m, application_cursor),
        SpecialKey::ArrowRight => cursor_key_bytes(67, m, application_cursor),
        SpecialKey::ArrowLeft => cursor_key_bytes(68, m, application_cursor),
        SpecialKey::Home => cursor_key_bytes(72, m, application_cursor),
        SpecialKey::End => cursor_key_bytes(70, m, application_cursor),
        SpecialKey::PageUp => tilde_key_bytes(5, m),
        SpecialKey::PageDown => tilde_key_bytes(6, m),
        SpecialKey::Delete => tilde_key_bytes(3, m),
        SpecialKey::F(n) => if n == 1 {
            ss3_key_bytes(80, m)
        } else if n == 2 {
            ss3_key_bytes(81, m)
        } else if n == 3 {
            ss3_key_bytes(82, m)
        } else if n == 4 {
            ss3_key_bytes(83, m)
        } else if n == 5 {
            tilde_key_bytes(15, m)
        } else if n == 6 {
            tilde_key_bytes(17, m)
        } else if n == 7 {
            tilde_key_bytes(18, m)
        } else if n == 8 {
            tilde_key_bytes(19, m)
        } else if n == 9 {
            tilde_key_bytes(20, m)
        } else if n == 10 {
            tilde_key_bytes(21, m)
        } else if n == 11 {
            tilde_key_bytes(23, m)
        } else if n == 12 {
            tilde_key_bytes(24, m)
        } else {
            Seq::empty()
        },
    }
}

/// What typing `text` sends: nothing for empty text, a special key's escape sequence when
/// the text is that single key's character, and the text's UTF-8 bytes otherwise.
pub open spec fn terminal_input_bytes(
    text: Seq<char>,
    text_bytes: Seq<u8>,
    modifiers: InputModifiers,
    application_cursor: bool,
) -> Option<Seq<u8>> {
    if text.len() == 0 {
        None
    } else if text.len() == 1 && special_key_of(text[0] as u32) is Some {
        Some(special_key_bytes(special_key_of(text[0] as u32)->0, modifiers, application_cursor))
    } else {
        Some(text_bytes)
    }
}

/// Appends the decimal digits of `n` to `out`.
fn push_decimal(out: &mut Vec<u8>, n: u8)
    ensures
        final(out)@ == old(out)@ + decimal_digits(n as nat),
{
    proof {
        reveal_with_fuel(decimal_digits, 3);
    }
    if n >= 100 {
        out.push(48 + n / 100);
        out.push(48 + (n / 10) % 10);
        out.push(48 + n % 10);
        assert(decimal_digits(n as nat) == seq![(48 + n / 100) as u8, (48 + (n / 10) % 10) as u8, (
        48 + n % 10) as u8]);
    } else if n >= 10 {
        out.push(48 + n / 10);
        out.push(48 + n % 10);
    } else {
        out.push(48 + n);
    }
}

/// Appends every byte of `bytes` to `out`.
fn push_all(out: &mut Vec<u8>, bytes: &[u8])
    ensures
        final(out)@ == old(out)@ + bytes@,
{
    let mut i: usize = 0;
    while i < bytes.len()
        invariant
            i <= bytes@.len(),
            out@ == old(out)@ + bytes@.subrange(0, i as int),
        decreases bytes@.len() - i,
    {
        out.push(bytes[i]);
        i = i + 1;
        assert(bytes@.subrange(0, i as int) == bytes@.subrange(0, (i - 1) as int).push(
            bytes@[i - 1],
        ));
    }
    assert(bytes@.subrange(0, bytes@.len() as int) == bytes@);
}

/// Encodes pasted text, wrapping it in the bracketed-paste markers when that mode is on.
pub fn encode_paste(text: &str, bracketed: bool) -> (out: Option<Vec<u8>>)
    ensures
        text@.len() == 0 ==> out is None,
        text@.len() != 0 ==> out is Some && out->0@ == paste_bytes(text.spec_bytes(), bracketed),
{
    if text.is_empty() {
        return None;
    }
    let mut bytes: Vec<u8> = Vec::new();
    if bracketed {
        bytes.push(0x1b);
        bytes.push(91u8);
        bytes.push(50u8);
        bytes.push(48u8);
        bytes.push(48u8);
        bytes.push(126u8);
    }
    let ghost before = bytes@;
    push_all(&mut bytes, text.as_bytes());
    if bracketed {
        bytes.push(0x1b);
        bytes.push(91u8);
        bytes.push(50u8);
        bytes.push(48u8);
        bytes.push(49u8);
        bytes.push(126u8);
        assert(bytes@ == paste_start() + text.spec_bytes() + paste_end());
    } else {
        assert(bytes@ == text.spec_bytes());
    }
    Some(bytes)
}

/// Translates typed text into the bytes sent to the PTY.
pub fn translate_terminal_input(
    text: &str,
    modifiers: InputModifiers,
    application_cursor: bool,
) -> (out: Option<Vec<u8>>)
    ensures
        out matches Some(v) ==> terminal_input_bytes(
            text@,
            text.spec_bytes(),
            modifiers,
            application_cursor,
        ) == Some(v@),
        out is None ==> terminal_input_bytes(
            text@,
            text.spec_bytes(),
            modifiers,
            application_cursor,
        ) is None,
{
    if text.is_empty() {
        return None;
    }
    if text.unicode_len() == 1 {
        let ch = text.get_char(0);
        let code = char_code(ch);
        match special_key(code) {
            Some(key) => {
                return Some(encode_special_key(key, modifiers, application_cursor));
            },
            None => {},
        }
    }
    let mut bytes: Vec<u8> = Vec::new();
    push_all(&mut bytes, text.as_bytes());
    assert(bytes@ == text.spec_bytes());
    Some(bytes)
}

/// The scalar value of a character.
fn char_code(ch: char) -> (code: u32)
    ensures
        code == ch as u32,
{
    ch as u32
}

/// Classifies an AppKit character code as a special key.
pub fn special_key(ch: u32) -> (key: Option<SpecialKey>)
    ensures
        key == special_key_of(ch),
{
    if ch == UP_ARROW_FUNCTION_KEY {
        Some(SpecialKey::ArrowUp)
    } else if ch == DOWN_ARROW_FUNCTION_KEY {
        Some(SpecialKey::ArrowDown)
    } else if ch == RIGHT_ARROW_FUNCTION_KEY {
        Some(SpecialKey::ArrowRight)
    } else if ch == LEFT_ARROW_FUNCTION_KEY {
        Some(SpecialKey::ArrowLeft)
    } else if ch == HOME_FUNCTION_KEY {
        Some(SpecialKey::Home)
    } else if ch == END_FUNCTION_KEY {
        Some(SpecialKey::End)
    } else if ch == PAGE_UP_FUNCTION_KEY {
        Some(SpecialKey::PageUp)
    } else if ch == PAGE_DOWN_FUNCTION_KEY {
        Some(SpecialKey::PageDown)
    } else if ch == DELETE_FUNCTION_KEY {
        Some(SpecialKey::Delete)
    } else if F1_FUNCTION_KEY <= ch && ch <= F12_FUNCTION_KEY {
        Some(SpecialKey::F((ch - F1_FUNCTION_KEY + 1) as u8))
    } else {
        None
    }
}

/// Encodes a special key as its escape sequence.
pub fn encode_special_key(key: SpecialKey, modifiers: InputModifiers, application_cursor: bool) -> (out:
    Vec<u8>)
    ensures
        out@ == special_key_bytes(key, modifiers, application_cursor),
{
    let modifier = modifier_parameter(modifiers);
    match key {
        SpecialKey::ArrowUp => encode_cursor_key(65u8, modifier, application_cursor),
        SpecialKey::ArrowDown => encode_cursor_key(66u8, modifier, application_cursor),
        SpecialKey::ArrowRight => encode_cursor_key(67u8, modifier, application_cursor),
        SpecialKey::ArrowLeft => encode_cursor_key(68u8, modifier, application_cursor),
        SpecialKey::Home => encode_cursor_key(72u8, modifier, application_cursor),
        SpecialKey::End => encode_cursor_key(70u8, modifier, application_cursor),
        SpecialKey::PageUp => encode_tilde_key(5, modifier),
        SpecialKey::PageDown => encode_tilde_key(6, modifier),
        SpecialKey::Delete => encode_tilde_key(3, modifier),
        SpecialKey::F(n) => {
            if n == 1 {
                encode_function_key_ss3(80u8, modifier)
            } else if n == 2 {
                encode_function_key_ss3(81u8, modifier)
            } else if n == 3 {
                encode_function_key_ss3(82u8, modifier)
            } else if n == 4 {
                encode_function_key_ss3(83u8, modifier)
            } else if n == 5 {
                encode_tilde_key(15, modifier)
            } else if n == 6 {
                encode_tilde_key(17, modifier)
            } else if n == 7 {
                encode_tilde_key(18, modifier)
            } else if n == 8 {
                encode_tilde_key(19, modifier)
            } else if n == 9 {
                encode_tilde_key(20, modifier)
            } else if n == 10 {
                encode_tilde_key(21, modifier)
            } else if n == 11 {
                encode_tilde_key(23, modifier)
            } else if n == 12 {
                encode_tilde_key(24, modifier)
            } else {
                Vec::new()
            }
        },
    }
}

/// The xterm modifier parameter for the held modifiers.
pub fn modifier_parameter(modifiers: InputModifiers) -> (value: Option<u8>)
    ensures
        value == modifier_value(modifiers),
{
    let mut value: u8 = 1;
    if modifiers.shift {
        value += 1;
    }
    if modifiers.option {
        value += 2;
    }
    if modifiers.control {
        value += 4;
    }
    if value == 1 {
        None
    } else {
        Some(value)
    }
}

/// Appends `ESC [ 1 ; <modifier> <final>`.
fn push_modified_csi_key(out: &mut Vec<u8>, final_byte: u8, modifier: u8)
    ensures
        final(out)@ == old(out)@ + modified_csi_key(final_byte, modifier),
{
    out.push(0x1b);
    out.push(91u8);
    out.push(49u8);
    out.push(59u8);
    let ghost mid = out@;
    push_decimal(out, modifier);
    out.push(final_byte);
    assert(out@ == old(out)@ + modified_csi_key(final_byte, modifier));
}

/// Encodes a cursor key (arrows, Home, End).
pub fn encode_cursor_key(final_byte: u8, modifier: Option<u8>, application_cursor: bool) -> (out: Vec<
    u8,
>)
    ensures
        out@ == cursor_key_bytes(final_byte, modifier, application_cursor),
{
    match modifier {
        Some(m) => {
            let mut out: Vec<u8> = Vec::new();
            push_modified_csi_key(&mut out, final_byte, m);
            assert(out@ == modified_csi_key(final_byte, m));
            out
        },
        None => {
            let mut out: Vec<u8> = Vec::new();
            out.push(0x1b);
            if application_cursor {
                out.push(79u8);
            } else {
                out.push(91u8);
            }
            out.push(final_byte);
            out
        },
    }
}

/// Encodes F1 to F4 in their SS3 form.
pub fn encode_function_key_ss3(final_byte: u8, modifier: Option<u8>) -> (out: Vec<u8>)
    ensures
        out@ == ss3_key_bytes(final_byte, modifier),
{
    match modifier {
        Some(m) => {
            let mut out: Vec<u8> = Vec::new();
            push_modified_csi_key(&mut out, final_byte, m);
            assert(out@ == modified_csi_key(final_byte, m));
            out
        },
        None => {
            let mut out: Vec<u8> = Vec::new();
            out.push(0x1b);
            out.push(79u8);
            out.push(final_byte);
            out
        },
    }
}

/// Encodes a key of the `ESC [ <code> ~` family.
pub fn encode_tilde_key(code: u8, modifier: Option<u8>) -> (out: Vec<u8>)
    ensures
        out@ == tilde_key_bytes(code, modifier),
{
    let mut out: Vec<u8> = Vec::new();
    out.push(0x1b);
    out.push(91u8);
    push_decimal(&mut out, code);
    match modifier {
        Some(m) => {
            out.push(59u8);
            push_decimal(&mut out, m);
            out.push(126u8);
            assert(out@ == seq![esc(), 91u8] + decimal_digits(code as nat) + seq![59u8]
                + decimal_digits(m as nat) + seq![126u8]);
        },
        None => {
            out.push(126u8);
            assert(out@ == seq![esc(), 91u8] + decimal_digits(code as nat) + seq![126u8]);
        },
    }
    out
}

/// The next (anchor, focus, dragging) triple after a pointer event in `phase` over `cell`.
pub open spec fn selection_step(
    anchor: Option<(u16, u16)>,
    focus: Option<(u16, u16)>,
    dragging: bool,
    phase: SelectionPhase,
    cell: Option<(u16, u16)>,
) -> (Option<(u16, u16)>, Option<(u16, u16)>, bool) {
    match phase {
        SelectionPhase::Start => (cell, cell, cell is Some),
        SelectionPhase::Update => if dragging {
            (anchor, if cell is Some { cell } else { focus }, dragging)
        } else {
            (anchor, focus, dragging)
        },
        SelectionPhase::End => if dragging {
            (anchor, if cell is Some { cell } else { focus }, false)
        } else {
            (anchor, focus, false)
        },
    }
}

/// Typed text is sent as typed: empty text sends nothing, and any non-empty text other
/// than one AppKit function-key character (codes 0xF700 to 0xF72D) sends exactly its UTF-8
/// bytes, whatever the modifiers and the cursor-key mode.
pub proof fn lemma_text_is_sent_as_typed(
    text: Seq<char>,
    text_bytes: Seq<u8>,
    modifiers: InputModifiers,
    application_cursor: bool,
)
    ensures
        text.len() == 0 ==> terminal_input_bytes(text, text_bytes, modifiers, application_cursor)
            is None,
        text.len() > 0 && !(text.len() == 1 && 0xF700 <= text[0] as u32 <= 0xF72D)
            ==> terminal_input_bytes(text, text_bytes, modifiers, application_cursor) == Some(
            text_bytes,
        ),
{
}

/// A function key typed alone sends an escape sequence: at least three bytes, the first
/// of them ESC, never the key's own character.
pub proof fn lemma_function_keys_send_escapes(
    ch: char,
    text_bytes: Seq<u8>,
    modifiers: InputModifiers,
    application_cursor: bool,
)
    requires
        (0xF700 <= ch as u32 <= 0xF70F) || ch as u32 == 0xF728 || ch as u32 == 0xF729
            || ch as u32 == 0xF72B || ch as u32 == 0xF72C || ch as u32 == 0xF72D,
    ensures
        ({
            let out = terminal_input_bytes(seq![ch], text_bytes, modifiers, application_cursor);
            &&& out is Some
            &&& out->0.len() >= 3
            &&& out->0[0] == 0x1b
        }),
{
    reveal_with_fuel(decimal_digits, 3);
    let key = special_key_of(ch as u32)->0;
    assert(seq![ch][0] == ch);
    let m = modifier_value(modifiers);
    match m {
        Some(v) => {
            assert(decimal_digits(v as nat).len() >= 1);
        },
        None => {},
    }
}

/// Only a press moves the anchor; drags and releases move the focus at most, and a
/// release always ends dragging.
pub proof fn lemma_selection_anchor_stays(
    anchor: Option<(u16, u16)>,
    focus: Option<(u16, u16)>,
    dragging: bool,
    phase: SelectionPhase,
    cell: Option<(u16, u16)>,
)
    ensures
        phase != SelectionPhase::Start ==> selection_step(anchor, focus, dragging, phase, cell).0
            == anchor,
        phase == SelectionPhase::End ==> !selection_step(anchor, focus, dragging, phase, cell).2,
        !dragging && phase != SelectionPhase::Start ==> selection_step(
            anchor,
            focus,
            dragging,
            phase,
            cell,
        ) == (anchor, focus, false),
{
}

/// A selection that is being dragged always has both ends, and every pointer event keeps
/// it so.
pub proof fn lemma_selection_dragging_has_ends(
    anchor: Option<(u16, u16)>,
    focus: Option<(u16, u16)>,
    dragging: bool,
    phase: SelectionPhase,
    cell: Option<(u16, u16)>,
)
    requires
        dragging ==> anchor is Some && focus is Some,
    ensures
        ({
            let next = selection_step(anchor, focus, dragging, phase, cell);
            next.2 ==> next.0 is Some && next.1 is Some
        }),
{
}

/// Folds one pointer event into the selection: a press starts a selection at the cell
/// under the pointer, drags move its focus, and a release ends dragging.
pub fn reduce_selection_phase(
    anchor: Option<(u16, u16)>,
    focus: Option<(u16, u16)>,
    dragging: bool,
    phase: SelectionPhase,
    cell: Option<(u16, u16)>,
) -> (next: (Option<(u16, u16)>, Option<(u16, u16)>, bool))
    ensures
        next == selection_step(anchor, focus, dragging, phase, cell),
{
    match phase {
        SelectionPhase::Start => (cell, cell, cell.is_some()),
        SelectionPhase::Update => {
            if dragging {
                (anchor, if cell.is_some() { cell } else { focus }, dragging)
            } else {
                (anchor, focus, dragging)
            }
        },
        SelectionPhase::End => {
            if dragging {
                (anchor, if cell.is_some() { cell } else { focus }, false)
            } else {
                (anchor, focus, false)
            }
        },
    }
}

} // verus!
