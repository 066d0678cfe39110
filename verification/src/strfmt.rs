//! The quote-selection formatters for string values and messages: given an
//! encoded string, produce the cheapest unambiguous rendering.

use vstd::prelude::*;
use crate::fmtbuf::extend_bytes;
use crate::json::{escape, append_json_escaped};
use crate::mask::{Quoting, mask_of, compute_mask, select_quoting, select_quoting_of};
use crate::model::{EncodedString, enc_source, enc_decoded, dec_or_source, enc_is_empty,
    lemma_nonempty_decode};

verus! {

/// `body` wrapped in one `q` byte on each side.
pub open spec fn quote_wrap(q: u8, body: Seq<u8>) -> Seq<u8> {
    seq![q] + body + seq![q]
}

/// The quote-selected rendering of a string value: the empty token for an
/// empty string (at top level only), the source bytes for a malformed
/// token, and otherwise the decoded bytes under the rendering that
/// `select_quoting` picks from their mask.
pub open spec fn render_string_auto(s: EncodedString, top: bool) -> Seq<u8> {
    if top && enc_is_empty(s) {
        seq![0x22u8, 0x22u8]
    } else {
        match enc_decoded(s) {
            None => enc_source(s),
            Some(d) => {
                if d.len() == 0 {
                    d
                } else {
                    match select_quoting(mask_of(d), d[0], top) {
                        Quoting::Bare => d,
                        Quoting::DoubleQuoted => quote_wrap(0x22, d),
                        Quoting::SingleQuoted => quote_wrap(0x27, d),
                        Quoting::Backticked => quote_wrap(0x60, d),
                        Quoting::Escaped => quote_wrap_escaped(d),
                    }
                }
            },
        }
    }
}

/// The fully escaped rendering: the JSON escaping of the decoded bytes in
/// double quotes.
pub open spec fn quote_wrap_escaped(d: Seq<u8>) -> Seq<u8> {
    seq![0x22u8] + escape(d) + seq![0x22u8]
}

/// The raw rendering: the decoded bytes, or on a malformed token the
/// source bytes unchanged.
pub open spec fn render_string_raw(s: EncodedString) -> Seq<u8> {
    dec_or_source(s)
}

/// The always-double-quoted rendering, or the source bytes on a malformed
/// token.
pub open spec fn render_string_double_quoted(s: EncodedString) -> Seq<u8> {
    match enc_decoded(s) {
        None => enc_source(s),
        Some(d) => quote_wrap_escaped(d),
    }
}

/// The message rendering: nothing for an empty message; otherwise the
/// decoded bytes, fully escaped in double quotes when they start with a
/// double quote or contain an equal sign, and bare otherwise.
pub open spec fn render_message_auto(s: EncodedString) -> Seq<u8> {
    if enc_is_empty(s) {
        Seq::empty()
    } else {
        match enc_decoded(s) {
            None => enc_source(s),
            Some(d) => {
                if d.len() > 0 && (d[0] == 0x22 || d.contains(0x3D)) {
                    quote_wrap_escaped(d)
                } else {
                    d
                }
            },
        }
    }
}

/// True if `s` holds the byte `b`.
pub fn contains_byte(s: &[u8], b: u8) -> (r: bool)
    ensures
        r == s@.contains(b),
{
    let mut i: usize = 0;
    while i < s.len()
        invariant
            0 <= i <= s@.len(),
            forall|j: int| 0 <= j < i ==> s@[j] != b,
        decreases s@.len() - i,
    {
        if s[i] == b {
            return true;
        }
        i = i + 1;
    }
    false
}

/// Appends the quote-selected rendering of `s`. A top-level call renders an
/// empty string as the empty token and refuses a bare rendering that would
/// open with a bracket; a nested call skips both special cases.
pub fn append_string_auto(s: &EncodedString, buf: &mut Vec<u8>, top: bool)
    ensures
        final(buf)@ == old(buf)@ + render_string_auto(*s, top),
{
    if top && s.is_empty() {
        buf.push(0x22);
        buf.push(0x22);
        proof {
            assert(buf@ =~= old(buf)@ + seq![0x22u8, 0x22u8]);
        }
        return ;
    }
    let mut scratch: Vec<u8> = Vec::new();
    let ok = s.decode_into(&mut scratch);
    if !ok {
        s.append_source(buf);
        return ;
    }
    if scratch.len() == 0 {
        return ;
    }
    let m = compute_mask(scratch.as_slice());
    let q = select_quoting_of(m, scratch[0], top);
    match q {
        Quoting::Bare => {
            extend_bytes(buf, scratch.as_slice());
        },
        Quoting::DoubleQuoted => {
            append_wrapped(buf, scratch.as_slice(), 0x22);
        },
        Quoting::SingleQuoted => {
            append_wrapped(buf, scratch.as_slice(), 0x27);
        },
        Quoting::Backticked => {
            append_wrapped(buf, scratch.as_slice(), 0x60);
        },
        Quoting::Escaped => {
            buf.push(0x22);
            append_json_escaped(buf, scratch.as_slice());
            buf.push(0x22);
            proof {
                assert(buf@ =~= old(buf)@ + quote_wrap_escaped(scratch@));
            }
        },
    }
}

/// Appends `body` wrapped in one `q` byte on each side.
fn append_wrapped(buf: &mut Vec<u8>, body: &[u8], q: u8)
    ensures
        final(buf)@ == old(buf)@ + quote_wrap(q, body@),
{
    buf.push(q);
    extend_bytes(buf, body);
    buf.push(q);
    proof {
        assert(buf@ =~= old(buf)@ + quote_wrap(q, body@));
    }
}

/// Appends the message rendering of `s`.
pub fn append_message_auto(s: &EncodedString, buf: &mut Vec<u8>)
    ensures
        final(buf)@ == old(buf)@ + render_message_auto(*s),
{
    if s.is_empty() {
        return ;
    }
    let mut scratch: Vec<u8> = Vec::new();
    let ok = s.decode_into(&mut scratch);
    if !ok {
        s.append_source(buf);
        return ;
    }
    let needs_quotes = if scratch.len() > 0 && scratch[0] == 0x22 {
        true
    } else {
        contains_byte(scratch.as_slice(), 0x3D)
    };
    if needs_quotes {
        buf.push(0x22);
        append_json_escaped(buf, scratch.as_slice());
        buf.push(0x22);
        proof {
            assert(buf@ =~= old(buf)@ + quote_wrap_escaped(scratch@));
        }
    } else {
        extend_bytes(buf, scratch.as_slice());
    }
}

/// Renders a string value by quote selection.
pub struct ValueFormatAuto {
    /// The string to render.
    pub string: EncodedString,
}

impl ValueFormatAuto {
    /// Wraps a string for quote-selected rendering.
    pub fn new(string: EncodedString) -> (r: ValueFormatAuto)
        ensures
            r.string == string,
    {
        ValueFormatAuto { string }
    }

    /// Appends the quote-selected rendering of the string.
    pub fn format(&self, buf: &mut Vec<u8>)
        ensures
            final(buf)@ == old(buf)@ + render_string_auto(self.string, true),
    {
        append_string_auto(&self.string, buf, true);
    }
}

/// Renders a string value as its decoded bytes with no quoting at all.
pub struct ValueFormatRaw {
    /// The string to render.
    pub string: EncodedString,
}

impl ValueFormatRaw {
    /// Wraps a string for raw rendering.
    pub fn new(string: EncodedString) -> (r: ValueFormatRaw)
        ensures
            r.string == string,
    {
        ValueFormatRaw { string }
    }

    /// Appends the decoded bytes; on a malformed token the source bytes.
    pub fn format(&self, buf: &mut Vec<u8>)
        ensures
            final(buf)@ == old(buf)@ + render_string_raw(self.string),
    {
        let ok = self.string.decode_into(buf);
        if !ok {
            self.string.append_source(buf);
        }
    }
}

/// Renders a string value fully escaped in double quotes.
pub struct ValueFormatDoubleQuoted {
    /// The string to render.
    pub string: EncodedString,
}

impl ValueFormatDoubleQuoted {
    /// Wraps a string for double-quoted rendering.
    pub fn new(string: EncodedString) -> (r: ValueFormatDoubleQuoted)
        ensures
            r.string == string,
    {
        ValueFormatDoubleQuoted { string }
    }

    /// Appends the escaped, double-quoted rendering; on a malformed token
    /// the source bytes.
    pub fn format(&self, buf: &mut Vec<u8>)
        ensures
            final(buf)@ == old(buf)@ + render_string_double_quoted(self.string),
    {
        let mut scratch: Vec<u8> = Vec::new();
        let ok = self.string.decode_into(&mut scratch);
        if !ok {
            self.string.append_source(buf);
            return ;
        }
        buf.push(0x22);
        append_json_escaped(buf, scratch.as_slice());
        buf.push(0x22);
        proof {
            assert(buf@ =~= old(buf)@ + quote_wrap_escaped(scratch@));
        }
    }
}

/// Renders a message by the reduced two-way choice.
pub struct MessageFormatAuto {
    /// The message string.
    pub string: EncodedString,
}

impl MessageFormatAuto {
    /// Wraps a message string for two-way rendering.
    pub fn new(string: EncodedString) -> (r: MessageFormatAuto)
        ensures
            r.string == string,
    {
        MessageFormatAuto { string }
    }

    /// Appends the message rendering.
    pub fn format(&self, buf: &mut Vec<u8>)
        ensures
            final(buf)@ == old(buf)@ + render_message_auto(self.string),
    {
        append_message_auto(&self.string, buf);
    }
}

/// Renders a message as its decoded bytes with no quoting at all.
pub struct MessageFormatRaw {
    /// The message string.
    pub string: EncodedString,
}

impl MessageFormatRaw {
    /// Wraps a message string for raw rendering.
    pub fn new(string: EncodedString) -> (r: MessageFormatRaw)
        ensures
            r.string == string,
    {
        MessageFormatRaw { string }
    }

    /// Appends the decoded bytes; on a malformed token the source bytes.
    pub fn format(&self, buf: &mut Vec<u8>)
        ensures
            final(buf)@ == old(buf)@ + render_string_raw(self.string),
    {
        let ok = self.string.decode_into(buf);
        if !ok {
            self.string.append_source(buf);
        }
    }
}

/// Renders a message fully escaped in double quotes.
pub struct MessageFormatDoubleQuoted {
    /// The message string.
    pub string: EncodedString,
}

impl MessageFormatDoubleQuoted {
    /// Wraps a message string for double-quoted rendering.
    pub fn new(string: EncodedString) -> (r: MessageFormatDoubleQuoted)
        ensures
            r.string == string,
    {
        MessageFormatDoubleQuoted { string }
    }

    /// Appends the escaped, double-quoted rendering; on a malformed token
    /// the source bytes.
    pub fn format(&self, buf: &mut Vec<u8>)
        ensures
            final(buf)@ == old(buf)@ + render_string_double_quoted(self.string),
    {
        let mut scratch: Vec<u8> = Vec::new();
        let ok = self.string.decode_into(&mut scratch);
        if !ok {
            self.string.append_source(buf);
            return ;
        }
        buf.push(0x22);
        append_json_escaped(buf, scratch.as_slice());
        buf.push(0x22);
        proof {
            assert(buf@ =~= old(buf)@ + quote_wrap_escaped(scratch@));
        }
    }
}

/// In a mask, an extended-space flag never stands alone: the bytes that set
/// it are control bytes too.
pub proof fn lemma_mask_extended_implies_control(s: Seq<u8>)
    ensures
        mask_of(s).extended_space ==> mask_of(s).control,
    decreases s.len(),
{
    if s.len() > 0 {
        lemma_mask_extended_implies_control(s.drop_last());
    }
}

/// A decoded string in which no byte falls into any category, and whose
/// first byte opens no bracket, renders bare: the output is the string
/// itself with no wrapping quotes.
pub proof fn lemma_bare_rendering(s: EncodedString)
    requires
        !enc_is_empty(s),
        enc_decoded(s) is Some,
        mask_of(enc_decoded(s).unwrap()).is_none(),
        enc_decoded(s).unwrap()[0] != 0x5B,
        enc_decoded(s).unwrap()[0] != 0x7B,
    ensures
        render_string_auto(s, true) == enc_decoded(s).unwrap(),
{
    lemma_nonempty_decode(s);
}

/// A decoded string with a double quote but no control byte and no
/// backslash escapes nothing: it renders single-quoted; if it also holds a
/// single quote it upgrades to backticks, and with a backtick besides to
/// the fully escaped double-quoted form.
pub proof fn lemma_double_quote_upgrade(s: EncodedString)
    requires
        !enc_is_empty(s),
        enc_decoded(s) is Some,
        mask_of(enc_decoded(s).unwrap()).double_quote,
        !mask_of(enc_decoded(s).unwrap()).control,
        !mask_of(enc_decoded(s).unwrap()).backslash,
    ensures
        !mask_of(enc_decoded(s).unwrap()).single_quote ==> render_string_auto(s, true)
            == quote_wrap(0x27, enc_decoded(s).unwrap()),
        mask_of(enc_decoded(s).unwrap()).single_quote && !mask_of(
            enc_decoded(s).unwrap(),
        ).backtick ==> render_string_auto(s, true) == quote_wrap(0x60, enc_decoded(s).unwrap()),
        mask_of(enc_decoded(s).unwrap()).single_quote && mask_of(enc_decoded(s).unwrap()).backtick
            ==> render_string_auto(s, true) == quote_wrap_escaped(enc_decoded(s).unwrap()),
{
    lemma_nonempty_decode(s);
    lemma_mask_extended_implies_control(enc_decoded(s).unwrap());
}

/// An empty string value renders as the two-byte empty token.
pub proof fn lemma_empty_renders_quotes(s: EncodedString)
    requires
        enc_is_empty(s),
    ensures
        render_string_auto(s, true) == seq![0x22u8, 0x22u8],
{
}

/// A message that starts with a double quote or contains an equal sign is
/// always fully double-quote-escaped; one with neither is emitted bare.
pub proof fn lemma_message_two_way(s: EncodedString)
    requires
        !enc_is_empty(s),
        enc_decoded(s) is Some,
    ensures
        (enc_decoded(s).unwrap()[0] == 0x22 || enc_decoded(s).unwrap().contains(0x3D))
            ==> render_message_auto(s) == quote_wrap_escaped(enc_decoded(s).unwrap()),
        (enc_decoded(s).unwrap()[0] != 0x22 && !enc_decoded(s).unwrap().contains(0x3D))
            ==> render_message_auto(s) == enc_decoded(s).unwrap(),
{
    lemma_nonempty_decode(s);
}

} // verus!
