//! The escape-sequence parser: it routes each output byte to text, a C0 control, an
//! ESC sequence, a control sequence (CSI) or an operating system command (skipped), and
//! decodes multi-byte UTF-8 characters.
use vstd::prelude::*;

use super::model::{
    csi_fields, csi_params_spec, decimal_value, field_value, has_param_bytes, is_digit,
    param_or_spec, parse_csi_spec, utf8_complete, utf8_follows, utf8_pending, utf8_prefix, utf8_scalar,
    utf8_width, TerminalModel, CSI_PARAMS_LIMIT, SCROLLBACK_CAPACITY,
};
use super::types::{ParserModel, ParserState};
use super::TerminalBuffer;

verus! {

/// A parameter string always has at least one field.
proof fn lemma_csi_fields_nonempty(s: Seq<u8>)
    ensures
        csi_fields(s).len() >= 1,
    decreases s.len(),
{
    if s.len() > 0 {
        lemma_csi_fields_nonempty(s.drop_last());
    }
}

/// The value of a field of a parameter string.
fn field_result(len: usize, value: Option<usize>) -> (r: Option<usize>)
    ensures
        r == (if len == 0 {
            None
        } else {
            value
        }),
{
    if len == 0 {
        None
    } else {
        value
    }
}

/// Splits a parameter string into its parameters: the digits between `;` separators, an
/// empty or overflowing field giving no value, other bytes ignored, and no parameters at
/// all when there is no digit and no `;`.
pub fn parse_csi_params(raw: &[u8]) -> (params: Vec<Option<usize>>)
    ensures
        params@ == csi_params_spec(raw@),
{
    let mut params: Vec<Option<usize>> = Vec::new();
    let mut current: Option<usize> = Some(0);
    let mut current_len: usize = 0;
    let mut any = false;
    let mut i: usize = 0;
    assert(raw@.subrange(0, 0) =~= Seq::<u8>::empty());
    while i < raw.len()
        invariant
            i <= raw@.len(),
            ({
                let prefix = raw@.subrange(0, i as int);
                let fields = csi_fields(prefix);
                &&& fields.len() >= 1
                &&& params@ == fields.drop_last().map_values(|f: Seq<u8>| field_value(f))
                &&& current_len == fields.last().len()
                &&& current == (if decimal_value(fields.last()) <= usize::MAX {
                    Some(decimal_value(fields.last()) as usize)
                } else {
                    None
                })
                &&& any == has_param_bytes(prefix)
                &&& current_len <= i
            }),
        decreases raw@.len() - i,
    {
        let b = raw[i];
        let ghost prefix = raw@.subrange(0, i as int);
        let ghost next = raw@.subrange(0, i + 1);
        let ghost fields = csi_fields(prefix);
        assert(next.drop_last() =~= prefix);
        assert(next.last() == b);
        proof {
            lemma_csi_fields_nonempty(prefix);
        }
        if b == 59 {
            params.push(field_result(current_len, current));
            current = Some(0);
            current_len = 0;
            any = true;
            assert(csi_fields(next) == fields.push(Seq::empty()));
            assert(csi_fields(next).drop_last() =~= fields);
            assert(fields =~= fields.drop_last().push(fields.last()));
            assert(params@ =~= csi_fields(next).drop_last().map_values(
                |f: Seq<u8>| field_value(f),
            ));
            assert(decimal_value(Seq::<u8>::empty()) == 0);
            assert(is_digit(next[i as int]) || next[i as int] == 59);
        } else if 48 <= b && b <= 57 {
            let digit = (b - 48) as usize;
            current = match current {
                Some(v) => match v.checked_mul(10) {
                    Some(t) => t.checked_add(digit),
                    None => None,
                },
                None => None,
            };
            current_len = current_len + 1;
            any = true;
            let ghost last = fields.last();
            assert(last.push(b).drop_last() =~= last);
            assert(decimal_value(last.push(b)) == decimal_value(last) * 10 + (b - 48) as nat);
            assert(csi_fields(next) == fields.update(fields.len() - 1, last.push(b)));
            assert(csi_fields(next).drop_last() =~= fields.drop_last());
            assert(is_digit(next[i as int]));
        } else {
            assert(csi_fields(next) == fields);
            proof {
                if has_param_bytes(next) {
                    let k = choose|k: int|
                        0 <= k < next.len() && (is_digit(#[trigger] next[k]) || next[k] == 59);
                    assert(prefix[k] == next[k]);
                }
                if has_param_bytes(prefix) {
                    let k = choose|k: int|
                        0 <= k < prefix.len() && (is_digit(#[trigger] prefix[k]) || prefix[k]
                            == 59);
                    assert(next[k] == prefix[k]);
                }
            }
        }
        i = i + 1;
    }
    assert(raw@.subrange(0, raw@.len() as int) =~= raw@);
    if !any {
        return Vec::new();
    }
    let ghost fields = csi_fields(raw@);
    params.push(field_result(current_len, current));
    assert(fields =~= fields.drop_last().push(fields.last()));
    assert(params@ =~= fields.map_values(|f: Seq<u8>| field_value(f)));
    params
}

/// Splits the parameter bytes of a control sequence into its private flag (a leading `?`)
/// and the parameters of the rest.
pub fn parse_csi(raw: &[u8]) -> (r: (bool, Vec<Option<usize>>))
    ensures
        (r.0, r.1@) == parse_csi_spec(raw@),
{
    let private = raw.len() > 0 && raw[0] == 63;
    let start: usize = if private {
        1
    } else {
        0
    };
    let rest = vstd::slice::slice_subrange(raw, start, raw.len());
    assert(rest@ =~= if private {
        raw@.drop_first()
    } else {
        raw@
    });
    (private, parse_csi_params(rest))
}

/// Parameter `index`, or `default` when it is missing or empty.
pub fn param_or(params: &[Option<usize>], index: usize, default: usize) -> (v: usize)
    ensures
        v == param_or_spec(params@, index as int, default),
{
    if index < params.len() {
        match params[index] {
            Some(v) => v,
            None => default,
        }
    } else {
        default
    }
}

/// `x - 1`, or 0 for 0.
fn dec_or_zero(x: usize) -> (r: usize)
    ensures
        r == super::model::dec_or_zero(x),
{
    if x == 0 {
        0
    } else {
        x - 1
    }
}

/// Calls std's `char::from_u32`, whose documentation says it returns the `char` with
/// scalar value `value` when `value` is a Unicode scalar value (at most 0x10FFFF and not a
/// surrogate, 0xD800 to 0xDFFF) and `None` otherwise; the contract states exactly that.
#[verifier::external_body]
fn char_from_scalar(value: u32) -> (c: Option<char>)
    ensures
        c matches Some(ch) ==> ch == value as char,
        c is Some <==> (value <= 0xd7ff || (0xe000 <= value <= 0x10ffff)),
{
    char::from_u32(value)
}

/// How a byte continues the pending UTF-8 bytes.
enum Utf8Step {
    Complete(char),
    Pending,
    Invalid,
}

/// The bytes seen so far with `byte` added.
fn utf8_classify(pending: &Vec<u8>, byte: u8) -> (step: Utf8Step)
    requires
        utf8_pending(pending@),
    ensures
        step matches Utf8Step::Complete(ch) ==> utf8_complete(pending@.push(byte)) && ch == (
        utf8_scalar(pending@.push(byte)) as u32) as char,
        step is Pending ==> !utf8_complete(pending@.push(byte)) && utf8_prefix(
            pending@.push(byte),
        ),
        step is Invalid ==> !utf8_complete(pending@.push(byte)) && !utf8_prefix(
            pending@.push(byte),
        ),
{
    let ghost buf = pending@.push(byte);
    let n = pending.len();
    let b0 = if n == 0 {
        byte
    } else {
        pending[0]
    };
    assert(buf[0] == b0);
    let width: usize = if 0xc2 <= b0 && b0 <= 0xdf {
        2
    } else if 0xe0 <= b0 && b0 <= 0xef {
        3
    } else if 0xf0 <= b0 && b0 <= 0xf4 {
        4
    } else {
        0
    };
    if width == 0 {
        return Utf8Step::Invalid;
    }
    if n > 0 {
        let ok = if n == 1 && b0 == 0xe0 {
            0xa0 <= byte && byte <= 0xbf
        } else if n == 1 && b0 == 0xed {
            0x80 <= byte && byte <= 0x9f
        } else if n == 1 && b0 == 0xf0 {
            0x90 <= byte && byte <= 0xbf
        } else if n == 1 && b0 == 0xf4 {
            0x80 <= byte && byte <= 0x8f
        } else {
            0x80 <= byte && byte <= 0xbf
        };
        if !ok {
            assert(!utf8_follows(buf[0], n as int, buf[n as int]));
            return Utf8Step::Invalid;
        }
    }
    assert(forall|i: int| 1 <= i < buf.len() ==> utf8_follows(buf[0], i, #[trigger] buf[i])) by {
        assert forall|i: int| 1 <= i < buf.len() implies utf8_follows(buf[0], i, #[trigger] buf[i]) by {
            if i < n {
                assert(buf[i] == pending@[i]);
            }
        }
    }
    assert(utf8_prefix(buf));
    if n + 1 < width {
        return Utf8Step::Pending;
    }
    let value: u32 = if width == 2 {
        (b0 as u32 - 0xc0) * 64 + (byte as u32 - 0x80)
    } else if width == 3 {
        (b0 as u32 - 0xe0) * 4096 + (pending[1] as u32 - 0x80) * 64 + (byte as u32 - 0x80)
    } else {
        (b0 as u32 - 0xf0) * 262144 + (pending[1] as u32 - 0x80) * 4096 + (pending[2] as u32
            - 0x80) * 64 + (byte as u32 - 0x80)
    };
    assert(value == utf8_scalar(buf));
    assert(value <= 0xd7ff || (0xe000 <= value <= 0x10ffff)) by {
        assert(utf8_follows(buf[0], 1, buf[1]));
    }
    match char_from_scalar(value) {
        Some(ch) => Utf8Step::Complete(ch),
        None => Utf8Step::Invalid,
    }
}

impl TerminalBuffer {
    /// Feeds a stream of output bytes through the parser. Whatever the bytes, the size
    /// stays, the history keeps at most `SCROLLBACK_CAPACITY` rows, the view stays within
    /// it, and the cursor stays in the grid.
    pub fn push_bytes(&mut self, bytes: &[u8])
        requires
            old(self).wf(),
        ensures
            final(self)@ == old(self)@.push_bytes(bytes@),
            final(self).wf(),
            final(self)@.cols() == old(self)@.cols(),
            final(self)@.rows() == old(self)@.rows(),
            final(self)@.scrollback.len() <= SCROLLBACK_CAPACITY,
            final(self)@.viewport_offset <= final(self)@.scrollback.len(),
            final(self)@.screen().cursor_row < final(self)@.rows(),
            final(self)@.screen().cursor_col < final(self)@.cols(),
    {
        let mut i: usize = 0;
        while i < bytes.len()
            invariant
                self.wf(),
                i <= bytes@.len(),
                self@ == old(self)@.push_bytes(bytes@.subrange(0, i as int)),
            decreases bytes@.len() - i,
        {
            assert(bytes@.subrange(0, i + 1).drop_last() =~= bytes@.subrange(0, i as int));
            self.push_byte(bytes[i]);
            i = i + 1;
        }
        assert(bytes@.subrange(0, bytes@.len() as int) =~= bytes@);
        proof {
            super::damage_law::lemma_output_keeps_size(old(self)@, bytes@);
        }
    }

    /// Feeds one output byte through the parser.
    pub(crate) fn push_byte(&mut self, byte: u8)
        requires
            old(self).wf(),
        ensures
            final(self)@ == old(self)@.push_byte(byte),
            final(self).wf(),
    {
        proof {
            reveal(TerminalModel::push_byte);
        }
        match self.parser {
            ParserState::Ground => self.handle_ground_byte(byte),
            ParserState::Escape => self.handle_escape_byte(byte),
            ParserState::Csi(_) => self.handle_csi_byte(byte),
            ParserState::Osc => self.handle_osc_byte(byte),
            ParserState::OscEsc => self.handle_osc_esc_byte(byte),
        }
    }

    fn set_parser(&mut self, parser: ParserState)
        requires
            old(self).wf(),
            parser@ matches ParserModel::Csi(b) ==> b.len() <= CSI_PARAMS_LIMIT,
        ensures
            final(self)@ == old(self)@.with_parser(parser@),
            final(self).wf(),
    {
        self.parser = parser;
        assert(self@ =~= old(self)@.with_parser(parser@));
    }

    fn handle_ground_byte(&mut self, byte: u8)
        requires
            old(self).wf(),
            old(self)@.parser is Ground,
        ensures
            final(self)@ == old(self)@.ground_byte(byte),
            final(self).wf(),
    {
        if byte == 0x1b {
            self.flush_utf8_lossy();
            self.set_parser(ParserState::Escape);
        } else if byte == 0x0d {
            self.flush_utf8_lossy();
            self.carriage_return();
        } else if byte == 0x0a || byte == 0x0b || byte == 0x0c {
            self.flush_utf8_lossy();
            self.line_feed();
        } else if byte == 0x08 || byte == 0x7f {
            self.flush_utf8_lossy();
            self.backspace();
        } else if byte == 0x09 {
            self.flush_utf8_lossy();
            self.tab();
        } else if byte <= 0x1f {
            self.flush_utf8_lossy();
        } else if byte <= 0x7e {
            self.flush_utf8_lossy();
            self.write_char(byte as char);
        } else {
            self.push_utf8_byte(byte);
        }
    }

    fn handle_escape_byte(&mut self, byte: u8)
        requires
            old(self).wf(),
        ensures
            final(self)@ == old(self)@.escape_byte(byte),
            final(self).wf(),
    {
        if byte == 68 {
            self.index_down();
        } else if byte == 77 {
            self.reverse_index();
        } else if byte == 69 {
            self.next_line();
        } else if byte == 55 {
            self.save_cursor();
        } else if byte == 56 {
            self.restore_cursor();
        } else if byte == 99 {
            self.reset();
        }
        let next = if byte == 91 {
            ParserState::Csi(Vec::new())
        } else if byte == 93 {
            ParserState::Osc
        } else {
            ParserState::Ground
        };
        assert(next@ == (if byte == 91 {
            ParserModel::Csi(Seq::empty())
        } else if byte == 93 {
            ParserModel::Osc
        } else {
            ParserModel::Ground
        }));
        self.set_parser(next);
    }

    fn handle_csi_byte(&mut self, byte: u8)
        requires
            old(self).wf(),
            old(self)@.parser is Csi,
        ensures
            final(self)@ == old(self)@.csi_byte(old(self)@.parser->Csi_0, byte),
            final(self).wf(),
    {
        let mut parser = ParserState::Ground;
        std::mem::swap(&mut parser, &mut self.parser);
        let mut bytes = match parser {
            ParserState::Csi(bytes) => bytes,
            _ => Vec::new(),
        };
        assert(self@ =~= old(self)@.with_parser(ParserModel::Ground));
        if 0x40 <= byte && byte <= 0x7e {
            self.execute_csi(byte, bytes.as_slice());
            return;
        }
        if bytes.len() < CSI_PARAMS_LIMIT {
            bytes.push(byte);
        }
        self.set_parser(ParserState::Csi(bytes));
    }

    fn handle_osc_byte(&mut self, byte: u8)
        requires
            old(self).wf(),
        ensures
            final(self)@ == old(self)@.osc_byte(byte),
            final(self).wf(),
    {
        let next = if byte == 0x07 {
            ParserState::Ground
        } else if byte == 0x1b {
            ParserState::OscEsc
        } else {
            ParserState::Osc
        };
        self.set_parser(next);
    }

    fn handle_osc_esc_byte(&mut self, byte: u8)
        requires
            old(self).wf(),
        ensures
            final(self)@ == old(self)@.osc_esc_byte(byte),
            final(self).wf(),
    {
        let next = if byte == 92 {
            ParserState::Ground
        } else {
            ParserState::Osc
        };
        self.set_parser(next);
    }

    /// Runs a complete control sequence; see `TerminalModel::execute_csi`.
    #[verifier::rlimit(50)]
    fn execute_csi(&mut self, final_byte: u8, raw: &[u8])
        requires
            old(self).wf(),
        ensures
            final(self)@ == old(self)@.execute_csi(final_byte, raw@),
            final(self).wf(),
    {
        let (private, params) = parse_csi(raw);
        let ps = params.as_slice();
        let p0 = param_or(ps, 0, 1);
        let steps: i64 = if p0 > 0x7fff_ffff {
            0x7fff_ffff
        } else {
            p0 as i64
        };
        if !private && final_byte == 65 {
            self.move_cursor_relative(-steps, 0);
        } else if !private && final_byte == 66 {
            self.move_cursor_relative(steps, 0);
        } else if !private && final_byte == 67 {
            self.move_cursor_relative(0, steps);
        } else if !private && final_byte == 68 {
            self.move_cursor_relative(0, -steps);
        } else if !private && final_byte == 71 {
            self.set_cursor_col(dec_or_zero(p0) as u16);
        } else if !private && final_byte == 100 {
            self.set_cursor_row(dec_or_zero(p0) as u16);
        } else if !private && (final_byte == 72 || final_byte == 102) {
            let row = dec_or_zero(p0) as u16;
            let col = dec_or_zero(param_or(ps, 1, 1)) as u16;
            self.set_cursor_position(row, col);
        } else if !private && final_byte == 74 {
            self.erase_in_display(param_or(ps, 0, 0));
        } else if !private && final_byte == 75 {
            self.erase_in_line(param_or(ps, 0, 0));
        } else if !private && final_byte == 64 {
            self.insert_chars(p0 as u16);
        } else if !private && final_byte == 80 {
            self.delete_chars(p0 as u16);
        } else if !private && final_byte == 76 {
            self.insert_lines(p0 as u16);
        } else if !private && final_byte == 77 {
            self.delete_lines(p0 as u16);
        } else if !private && final_byte == 109 {
            self.set_graphics_rendition(ps);
        } else if !private && final_byte == 114 {
            let rows = self.rows() as usize;
            let top = dec_or_zero(p0) as u16;
            let bottom = dec_or_zero(param_or(ps, 1, rows)) as u16;
            self.set_scroll_region(top, bottom);
        } else if !private && final_byte == 115 {
            self.save_cursor();
        } else if !private && final_byte == 117 {
            self.restore_cursor();
        } else if private && final_byte == 104 {
            self.set_private_mode(ps, true);
        } else if private && final_byte == 108 {
            self.set_private_mode(ps, false);
        }
        let ghost m = self@;
        let screen = self.screen_mut();
        screen.wrap_pending = false;
        assert(self@ =~= m.no_wrap());
        proof {
            reveal(TerminalModel::execute_csi);
        }
    }

    /// Adds a byte of a multi-byte UTF-8 character; see `TerminalModel::push_utf8_byte`.
    fn push_utf8_byte(&mut self, byte: u8)
        requires
            old(self).wf(),
        ensures
            final(self)@ == old(self)@.push_utf8_byte(byte),
            final(self).wf(),
    {
        let step = utf8_classify(&self.utf8_buffer, byte);
        match step {
            Utf8Step::Complete(ch) => {
                self.utf8_buffer.clear();
                assert(self@ =~= (TerminalModel { utf8_buffer: Seq::empty(), ..old(self)@ }));
                self.write_char(ch);
            },
            Utf8Step::Pending => {
                self.utf8_buffer.push(byte);
                assert(self@ =~= (TerminalModel {
                    utf8_buffer: old(self)@.utf8_buffer.push(byte),
                    ..old(self)@
                }));
            },
            Utf8Step::Invalid => {
                self.utf8_buffer.clear();
                assert(self@ =~= (TerminalModel { utf8_buffer: Seq::empty(), ..old(self)@ }));
                self.write_char('\u{fffd}');
            },
        }
    }

    /// Writes a replacement character for pending bytes that never completed a character.
    fn flush_utf8_lossy(&mut self)
        requires
            old(self).wf(),
        ensures
            final(self)@ == old(self)@.flush_utf8(),
            final(self).wf(),
    {
        if self.utf8_buffer.len() > 0 {
            self.utf8_buffer.clear();
            assert(self@ =~= (TerminalModel { utf8_buffer: Seq::empty(), ..old(self)@ }));
            self.write_char('\u{fffd}');
        }
    }
}

} // verus!
