//! The record formatter: emits one record as a single line — time, level,
//! logger, message, fields and caller, in that order — through the field
//! filter, the key-path buffer and the quote-selection formatters.

use vstd::prelude::*;
use crate::filter::{IncludeExcludeKeyFilter, IncludeExcludeSetting, filter_get};
use crate::fmtbuf::{extend_bytes, pad_right, dash_run, trim_ws_suffix, append_aligned_left,
    append_dashes, WithAutoTrim, lemma_append_take_skip};
use crate::keypath::{KeyPrefix, prettified, push_spec, push_delta, pop_spec, key_prettify};
use crate::model::{Record, RawValue, Level, Caller, Timestamp, enc_source, enc_is_empty,
    value_is_empty, value_keys_fit, fields_keys_fit, elems_keys_fit, record_keys_fit,
    RecordWithSource};
use crate::strfmt::{render_string_auto, render_message_auto, append_string_auto,
    append_message_auto};

verus! {

/// The fixed punctuation byte strings around the record's elements.
pub struct Punctuation {
    /// Before the level token.
    pub level_left_separator: Vec<u8>,
    /// After the level token.
    pub level_right_separator: Vec<u8>,
    /// After the logger name.
    pub logger_name_separator: Vec<u8>,
    /// Between a field key and its value.
    pub field_key_value_separator: Vec<u8>,
    /// Between array elements.
    pub array_separator: Vec<u8>,
    /// Appended once to a scope in which fields were hidden.
    pub hidden_fields_indicator: Vec<u8>,
    /// Before the caller.
    pub source_location_separator: Vec<u8>,
}

impl Punctuation {
    /// The stock punctuation: `|` around the level, `:` after the logger,
    /// `=` between key and value, `,` between array elements, ` ...` for
    /// hidden fields and `@ ` before the caller.
    pub fn test_default() -> (r: Punctuation)
        ensures
            r.level_left_separator@ == seq![0x7Cu8],
            r.level_right_separator@ == seq![0x7Cu8],
            r.logger_name_separator@ == seq![0x3Au8],
            r.field_key_value_separator@ == seq![0x3Du8],
            r.array_separator@ == seq![0x2Cu8],
            r.hidden_fields_indicator@ == seq![0x20u8, 0x2Eu8, 0x2Eu8, 0x2Eu8],
            r.source_location_separator@ == seq![0x40u8, 0x20u8],
    {
        let mut hidden: Vec<u8> = Vec::new();
        hidden.push(0x20);
        hidden.push(0x2E);
        hidden.push(0x2E);
        hidden.push(0x2E);
        let mut source_loc: Vec<u8> = Vec::new();
        source_loc.push(0x40);
        source_loc.push(0x20);
        let r = Punctuation {
            level_left_separator: one_byte(0x7C),
            level_right_separator: one_byte(0x7C),
            logger_name_separator: one_byte(0x3A),
            field_key_value_separator: one_byte(0x3D),
            array_separator: one_byte(0x2C),
            hidden_fields_indicator: hidden,
            source_location_separator: source_loc,
        };
        proof {
            assert(r.hidden_fields_indicator@ =~= seq![0x20u8, 0x2Eu8, 0x2Eu8, 0x2Eu8]);
            assert(r.source_location_separator@ =~= seq![0x40u8, 0x20u8]);
        }
        r
    }
}

/// A vector of one byte.
fn one_byte(b: u8) -> (r: Vec<u8>)
    ensures
        r@ == seq![b],
{
    let mut v: Vec<u8> = Vec::new();
    v.push(b);
    proof {
        assert(v@ =~= seq![b]);
    }
    v
}

/// The formatting configuration: the punctuation set.
pub struct Formatting {
    /// The punctuation byte strings.
    pub punctuation: Punctuation,
}

/// Per-record mutable state: whether anything was emitted yet, whether
/// flatten mode is live, and the key-path buffer.
pub struct FormattingState {
    /// The dotted ancestor-key chain of the flattened descent.
    pub key_prefix: KeyPrefix,
    /// True while nested objects are being dot-flattened.
    pub flatten: bool,
    /// True until the first element is emitted.
    pub empty: bool,
}

/// The separator owed before an element: nothing before the first one.
pub open spec fn sep_if(empty: bool, sep: Seq<u8>) -> Seq<u8> {
    if empty {
        Seq::empty()
    } else {
        sep
    }
}

impl FormattingState {
    /// The key-path container invariant.
    pub open spec fn wf(self) -> bool {
        self.key_prefix.wf()
    }

    /// A fresh state: nothing emitted, an empty path.
    pub fn new(flatten: bool) -> (r: FormattingState)
        ensures
            r.wf(),
            r.flatten == flatten,
            r.empty,
            r.key_prefix@ == Seq::<u8>::empty(),
    {
        FormattingState { key_prefix: KeyPrefix::new(), flatten, empty: true }
    }

    /// Starts an element: the very first gets no separator, every later
    /// one gets `sep`.
    pub fn add_element(&mut self, buf: &mut Vec<u8>, sep: &[u8])
        ensures
            final(self).key_prefix == old(self).key_prefix,
            final(self).flatten == old(self).flatten,
            !final(self).empty,
            final(buf)@ == old(buf)@ + sep_if(old(self).empty, sep@),
    {
        if self.empty {
            self.empty = false;
            proof {
                assert(buf@ =~= old(buf)@ + sep_if(old(self).empty, sep@));
            }
        } else {
            extend_bytes(buf, sep);
        }
    }
}

/// The three-byte token of a level.
pub open spec fn level_token(l: Level) -> Seq<u8> {
    match l {
        Level::Debug => seq![0x44u8, 0x42u8, 0x47u8],
        Level::Info => seq![0x49u8, 0x4Eu8, 0x46u8],
        Level::Warning => seq![0x57u8, 0x52u8, 0x4Eu8],
        Level::Error => seq![0x45u8, 0x52u8, 0x52u8],
    }
}

/// What stands in the level slot: the level's token, the placeholder when
/// none is present but the level column is always shown, or nothing.
pub open spec fn level_slot(f: RecordFormatter, l: Option<Level>) -> Option<Seq<u8>> {
    match l {
        Some(lv) => Some(level_token(lv)),
        None => if f.always_show_level {
            Some(seq![0x28u8, 0x3Fu8, 0x29u8])
        } else {
            None
        },
    }
}

/// The bytes shown in the timestamp column: what the external formatter
/// made of the timestamp, or the raw bytes unchanged.
pub open spec fn ts_content(ts: Timestamp) -> Seq<u8> {
    match ts.formatted {
        Some(v) => v@,
        None => ts.raw@,
    }
}

/// What a field key resolves to in the filter tree: the matching child (if
/// any), the effective setting, and whether the position is a leaf.
pub open spec fn resolve_filter(
    filter: Option<IncludeExcludeKeyFilter>,
    setting: IncludeExcludeSetting,
    key: Seq<u8>,
) -> (Option<IncludeExcludeKeyFilter>, IncludeExcludeSetting, bool) {
    match filter {
        None => (None, setting, true),
        Some(flt) => {
            let s1 = setting.apply_spec(flt.setting);
            match filter_get(flt, key) {
                Some(child) => (
                    Some(child),
                    s1.apply_spec(child.setting),
                    child.children@.len() == 0,
                ),
                None => (None, s1, true),
            }
        },
    }
}

/// The view of an optional filter reference.
pub open spec fn opt_filter(filter: Option<&IncludeExcludeKeyFilter>) -> Option<
    IncludeExcludeKeyFilter,
> {
    match filter {
        Some(f) => Some(*f),
        None => None,
    }
}

/// The hidden-fields indicator, when a scope hid at least one field.
pub open spec fn ind_if(f: RecordFormatter, hidden: bool) -> Seq<u8> {
    if hidden {
        f.cfg.punctuation.hidden_fields_indicator@
    } else {
        Seq::empty()
    }
}

/// The closing of a braced object: a space joins it to a last member.
pub open spec fn close_brace(n: int) -> Seq<u8> {
    if n != 0 {
        seq![0x20u8, 0x7Du8]
    } else {
        seq![0x7Du8]
    }
}

/// One field under the filter: the bytes it emits, the empty flag after
/// it, and whether it was shown (false reports a filter suppression to the
/// enclosing scope).
#[verifier::opaque]
pub open spec fn render_field(
    f: RecordFormatter,
    key: Seq<u8>,
    v: RawValue,
    prefix: Seq<u8>,
    flatten: bool,
    empty: bool,
    filter: Option<IncludeExcludeKeyFilter>,
    setting: IncludeExcludeSetting,
    top: bool,
) -> (Seq<u8>, bool, bool)
    decreases v, 1int, 0int,
{
    let (cfilter, eff, leaf) = resolve_filter(filter, setting, key);
    if eff == IncludeExcludeSetting::Exclude && leaf {
        (Seq::empty(), empty, false)
    } else if flatten && (v matches RawValue::Object(_)) {
        match v {
            RawValue::Object(fields) => {
                let (b, e2, hidden) = render_fields_from(
                    f,
                    fields@,
                    0,
                    push_spec(prefix, key),
                    true,
                    empty,
                    cfilter,
                    eff,
                );
                (b + ind_if(f, hidden), e2, true)
            },
            _ => (Seq::empty(), empty, true),
        }
    } else {
        let keytok = if flatten && prefix.len() != 0 {
            prefix + seq![0x2Eu8] + prettified(key)
        } else {
            prettified(key)
        };
        let head = sep_if(empty, seq![0x20u8]) + keytok
            + f.cfg.punctuation.field_key_value_separator@;
        let (vb, e2) = render_value(f, v, prefix, false, false, cfilter, eff, top);
        (head + vb, e2, true)
    }
}

/// One value: the bytes it emits and the empty flag after it.
pub open spec fn render_value(
    f: RecordFormatter,
    v: RawValue,
    prefix: Seq<u8>,
    flatten: bool,
    empty: bool,
    filter: Option<IncludeExcludeKeyFilter>,
    setting: IncludeExcludeSetting,
    top: bool,
) -> (Seq<u8>, bool)
    decreases v, 0int, 0int,
{
    match v {
        RawValue::String(s) => (
            if f.unescape_fields {
                trim_ws_suffix(render_string_auto(s, top))
            } else {
                enc_source(s)
            },
            empty,
        ),
        RawValue::Number(d) => (d@, empty),
        RawValue::Boolean(b) => (
            if b {
                seq![0x74u8, 0x72u8, 0x75u8, 0x65u8]
            } else {
                seq![0x66u8, 0x61u8, 0x6Cu8, 0x73u8, 0x65u8]
            },
            empty,
        ),
        RawValue::Null => (seq![0x6Eu8, 0x75u8, 0x6Cu8, 0x6Cu8], empty),
        RawValue::Object(fields) => {
            let (b, e2, hidden) = render_fields_from(
                f,
                fields@,
                0,
                prefix,
                flatten,
                empty,
                filter,
                setting,
            );
            if flatten {
                (b + ind_if(f, hidden), e2)
            } else {
                (seq![0x7Bu8] + b + ind_if(f, hidden) + close_brace(fields@.len() as int), e2)
            }
        },
        RawValue::Array(elems) => {
            let (b, e2) = render_elems_from(f, elems@, 0, prefix, flatten, empty);
            (seq![0x5Bu8] + b + seq![0x5Du8], e2)
        },
    }
}

/// The members of an object from position `i` on: their bytes, the empty
/// flag after them, and whether any of them was hidden.
pub open spec fn render_fields_from(
    f: RecordFormatter,
    fields: Seq<(Vec<u8>, RawValue)>,
    i: int,
    prefix: Seq<u8>,
    flatten: bool,
    empty: bool,
    filter: Option<IncludeExcludeKeyFilter>,
    setting: IncludeExcludeSetting,
) -> (Seq<u8>, bool, bool)
    decreases fields, 2int, fields.len() - i,
{
    if i < 0 || i >= fields.len() {
        (Seq::empty(), empty, false)
    } else {
        let (b1, e1, shown) = render_field(
            f,
            fields[i].0@,
            fields[i].1,
            prefix,
            flatten,
            empty,
            filter,
            setting,
            false,
        );
        let (b2, e2, hidden2) = render_fields_from(
            f,
            fields,
            i + 1,
            prefix,
            flatten,
            e1,
            filter,
            setting,
        );
        (b1 + b2, e2, !shown || hidden2)
    }
}

/// The elements of an array from position `i` on, the configured separator
/// between them, each rendered with no filter.
pub open spec fn render_elems_from(
    f: RecordFormatter,
    elems: Seq<RawValue>,
    i: int,
    prefix: Seq<u8>,
    flatten: bool,
    empty: bool,
) -> (Seq<u8>, bool)
    decreases elems, 2int, elems.len() - i,
{
    if i < 0 || i >= elems.len() {
        (Seq::empty(), empty)
    } else {
        let sep = if i > 0 {
            f.cfg.punctuation.array_separator@
        } else {
            Seq::<u8>::empty()
        };
        let (b1, e1) = render_value(
            f,
            elems[i],
            prefix,
            flatten,
            empty,
            None,
            IncludeExcludeSetting::Unspecified,
            false,
        );
        let (b2, e2) = render_elems_from(f, elems, i + 1, prefix, flatten, e1);
        (sep + b1 + b2, e2)
    }
}

/// The record's own fields from position `i` on: empty values are skipped
/// when so configured, the rest render under the root filter.
pub open spec fn render_top_fields_from(
    f: RecordFormatter,
    fields: Seq<(Vec<u8>, RawValue)>,
    i: int,
    flatten: bool,
    empty: bool,
) -> (Seq<u8>, bool, bool)
    decreases fields, 3int, fields.len() - i,
{
    if i < 0 || i >= fields.len() {
        (Seq::empty(), empty, false)
    } else if f.hide_empty_fields && value_is_empty(fields[i].1) {
        render_top_fields_from(f, fields, i + 1, flatten, empty)
    } else {
        let (b1, e1, shown) = render_field(
            f,
            fields[i].0@,
            fields[i].1,
            Seq::empty(),
            flatten,
            empty,
            Some(f.fields),
            IncludeExcludeSetting::Unspecified,
            true,
        );
        let (b2, e2, hidden2) = render_top_fields_from(f, fields, i + 1, flatten, e1);
        (b1 + b2, e2, !shown || hidden2)
    }
}

/// The message slot: a non-empty string message under the two-way message
/// rules, any other message value as a field keyed `msg`.
pub open spec fn render_message_slot(
    f: RecordFormatter,
    msg: Option<RawValue>,
    flatten: bool,
    empty: bool,
) -> (Seq<u8>, bool) {
    match msg {
        None => (Seq::empty(), empty),
        Some(v) => match v {
            RawValue::String(s) => {
                if !enc_is_empty(s) {
                    (
                        sep_if(empty, seq![0x20u8]) + trim_ws_suffix(render_message_auto(s)),
                        false,
                    )
                } else {
                    (Seq::empty(), empty)
                }
            },
            _ => {
                let (b, e2, _shown) = render_field(
                    f,
                    seq![0x6Du8, 0x73u8, 0x67u8],
                    v,
                    Seq::empty(),
                    flatten,
                    empty,
                    Some(f.fields),
                    IncludeExcludeSetting::Unspecified,
                    true,
                );
                (b, e2)
            },
        },
    }
}

/// The caller slot: a space, the source-location separator, then the text
/// or the file with its optional line.
pub open spec fn render_caller_slot(f: RecordFormatter, caller: Option<Caller>) -> Seq<u8> {
    match caller {
        None => Seq::empty(),
        Some(Caller::Text(t)) => seq![0x20u8] + f.cfg.punctuation.source_location_separator@ + t@,
        Some(Caller::FileLine(file, line)) => seq![0x20u8]
            + f.cfg.punctuation.source_location_separator@ + file@ + (if line@.len() != 0 {
            seq![0x3Au8] + line@
        } else {
            Seq::<u8>::empty()
        }),
    }
}

/// The timestamp column and the empty flag after it.
pub open spec fn render_time_slot(f: RecordFormatter, rec: Record) -> (Seq<u8>, bool) {
    match rec.ts {
        Some(ts) => (pad_right(ts_content(ts), f.ts_width as int), false),
        None => if f.always_show_time {
            (dash_run(f.ts_width as int), false)
        } else {
            (Seq::<u8>::empty(), true)
        },
    }
}

/// The level slot's bytes given the empty flag before it, and the flag
/// after it.
pub open spec fn render_level_bytes(f: RecordFormatter, rec: Record, e1: bool) -> (Seq<u8>, bool) {
    match level_slot(f, rec.level) {
        Some(tok) => (
            sep_if(e1, seq![0x20u8]) + f.cfg.punctuation.level_left_separator@ + tok
                + f.cfg.punctuation.level_right_separator@,
            false,
        ),
        None => (Seq::<u8>::empty(), e1),
    }
}

/// The logger slot's bytes given the empty flag before it, and the flag
/// after it.
pub open spec fn render_logger_bytes(f: RecordFormatter, rec: Record, e2: bool) -> (Seq<u8>, bool) {
    match rec.logger {
        Some(lg) => (
            sep_if(e2, seq![0x20u8]) + lg@ + f.cfg.punctuation.logger_name_separator@,
            false,
        ),
        None => (Seq::<u8>::empty(), e2),
    }
}

/// The head of the line — timestamp column, level slot and logger — and
/// the empty flag after it.
pub open spec fn render_head(f: RecordFormatter, rec: Record) -> (Seq<u8>, bool) {
    let (tb, e1) = render_time_slot(f, rec);
    let (lb, e2) = render_level_bytes(f, rec, e1);
    let (gb, e3) = render_logger_bytes(f, rec, e2);
    (tb + lb + gb, e3)
}

/// The whole line of one record: time, level, logger, message, fields, one
/// hidden-fields indicator if the filter hid any record field, and caller,
/// with a single space before every element after the first.
#[verifier::opaque]
pub open spec fn render_record_spec(f: RecordFormatter, rec: Record) -> Seq<u8> {
    let flatten0 = f.flatten && f.unescape_fields;
    let (hb, e3) = render_head(f, rec);
    let (mb, e4) = render_message_slot(f, rec.message, flatten0, e3);
    let (fb, e5, hidden) = render_top_fields_from(f, rec.fields@, 0, flatten0, e4);
    hb + mb + (fb + ind_if(f, hidden)) + render_caller_slot(f, rec.caller)
}

/// How the whole line decomposes into its slots: the head, the message,
/// the fields with their indicator, and the caller.
pub proof fn lemma_record_assembly(f: RecordFormatter, rec: Record)
    ensures
        ({
            let flatten0 = f.flatten && f.unescape_fields;
            let (hb, e3) = render_head(f, rec);
            let (mb, e4) = render_message_slot(f, rec.message, flatten0, e3);
            let (fb, e5, hidden) = render_top_fields_from(f, rec.fields@, 0, flatten0, e4);
            render_record_spec(f, rec) == hb + mb + (fb + ind_if(f, hidden))
                + render_caller_slot(f, rec.caller)
        }),
{
    reveal(render_record_spec);
}

/// Renders records as single lines into a caller-supplied buffer.
pub struct RecordFormatter {
    /// False keeps string values as their raw escaped source bytes.
    pub unescape_fields: bool,
    /// The width of the timestamp column.
    pub ts_width: usize,
    /// True skips fields whose value holds no content.
    pub hide_empty_fields: bool,
    /// True renders nested objects as dotted keys instead of braces.
    pub flatten: bool,
    /// True shows a dash placeholder when a record has no timestamp.
    pub always_show_time: bool,
    /// True shows a placeholder when a record has no level.
    pub always_show_level: bool,
    /// The root of the field filter tree.
    pub fields: IncludeExcludeKeyFilter,
    /// The punctuation configuration.
    pub cfg: Formatting,
}

impl RecordFormatter {
    /// A formatter over the given timestamp column width, empty-field
    /// policy, filter tree and punctuation. Field unescaping starts on;
    /// flattening and the always-show switches start off.
    pub fn new(
        ts_width: usize,
        hide_empty_fields: bool,
        fields: IncludeExcludeKeyFilter,
        cfg: Formatting,
    ) -> (r: RecordFormatter)
        ensures
            r.unescape_fields,
            r.ts_width == ts_width,
            r.hide_empty_fields == hide_empty_fields,
            !r.flatten,
            !r.always_show_time,
            !r.always_show_level,
            r.fields == fields,
            r.cfg == cfg,
    {
        RecordFormatter {
            unescape_fields: true,
            ts_width,
            hide_empty_fields,
            flatten: false,
            always_show_time: false,
            always_show_level: false,
            fields,
            cfg,
        }
    }

    /// The same formatter with field unescaping set.
    pub fn with_field_unescaping(self, unescape_fields: bool) -> (r: RecordFormatter)
        ensures
            r == (RecordFormatter { unescape_fields, ..self }),
    {
        RecordFormatter { unescape_fields, ..self }
    }

    /// The same formatter with flattening set.
    pub fn with_flatten(self, flatten: bool) -> (r: RecordFormatter)
        ensures
            r == (RecordFormatter { flatten, ..self }),
    {
        RecordFormatter { flatten, ..self }
    }

    /// The same formatter with the timestamp placeholder switch set.
    pub fn with_always_show_time(self, value: bool) -> (r: RecordFormatter)
        ensures
            r == (RecordFormatter { always_show_time: value, ..self }),
    {
        RecordFormatter { always_show_time: value, ..self }
    }

    /// The same formatter with the level placeholder switch set.
    pub fn with_always_show_level(self, value: bool) -> (r: RecordFormatter)
        ensures
            r == (RecordFormatter { always_show_level: value, ..self }),
    {
        RecordFormatter { always_show_level: value, ..self }
    }
}

/// What one field's opening emits when the field is not flattened away:
/// the owed separator, the key token (under flatten with the dotted prefix
/// ahead of it), and the key/value separator.
pub open spec fn begin_normal_bytes(
    f: RecordFormatter,
    key: Seq<u8>,
    prefix: Seq<u8>,
    flatten: bool,
    empty: bool,
) -> Seq<u8> {
    sep_if(empty, seq![0x20u8]) + (if flatten && prefix.len() != 0 {
        prefix + seq![0x2Eu8] + prettified(key)
    } else {
        prettified(key)
    }) + f.cfg.punctuation.field_key_value_separator@
}

/// What a field's opening saved, so that its closing can restore the state
/// exactly on every exit path.
#[derive(Clone, Copy)]
pub enum FormattedFieldVariant {
    /// A normally keyed field; the flatten flag to restore.
    Normal {
        /// The flatten flag as it stood before the field began.
        flatten: bool,
    },
    /// A flattened object field; the number of key-path bytes to pop.
    Flattened(usize),
}

/// How one field's rendering decomposes over the three ways it can go:
/// dropped by the filter, flattened into the key path, or normally keyed.
pub proof fn lemma_render_field_cases(
    f: RecordFormatter,
    key: Seq<u8>,
    v: RawValue,
    prefix: Seq<u8>,
    flatten: bool,
    empty: bool,
    filter: Option<IncludeExcludeKeyFilter>,
    setting: IncludeExcludeSetting,
    top: bool,
)
    ensures
        ({
            let (cfilter, eff, leaf) = resolve_filter(filter, setting, key);
            let dropped = eff == IncludeExcludeSetting::Exclude && leaf;
            &&& (dropped ==> render_field(f, key, v, prefix, flatten, empty, filter, setting, top)
                == (Seq::<u8>::empty(), empty, false))
            &&& (!dropped && flatten && (v matches RawValue::Object(_)) ==> ({
                let (vb, ve) = render_value(
                    f,
                    v,
                    push_spec(prefix, key),
                    true,
                    empty,
                    cfilter,
                    eff,
                    top,
                );
                render_field(f, key, v, prefix, flatten, empty, filter, setting, top) == (
                    vb,
                    ve,
                    true,
                )
            }))
            &&& (!dropped && !(flatten && (v matches RawValue::Object(_))) ==> ({
                let (vb, ve) = render_value(f, v, prefix, false, false, cfilter, eff, top);
                render_field(f, key, v, prefix, flatten, empty, filter, setting, top) == (
                    begin_normal_bytes(f, key, prefix, flatten, empty) + vb,
                    ve,
                    true,
                )
            }))
        }),
{
    reveal(render_field);
}

/// Filter suppression: a field whose key resolves to an excluded leaf is
/// dropped whole — neither its key nor its value reaches the output, the
/// empty flag stays as it was, and the suppression is reported to the
/// enclosing scope. The enclosing scope turns any number of such reports
/// into at most one hidden-fields indicator, appended once after its
/// fields (`ind_if` in `render_value` and `render_record_spec`).
pub proof fn lemma_filter_suppression(
    f: RecordFormatter,
    key: Seq<u8>,
    v: RawValue,
    prefix: Seq<u8>,
    flatten: bool,
    empty: bool,
    filter: Option<IncludeExcludeKeyFilter>,
    setting: IncludeExcludeSetting,
    top: bool,
)
    requires
        ({
            let (cfilter, eff, leaf) = resolve_filter(filter, setting, key);
            eff == IncludeExcludeSetting::Exclude && leaf
        }),
    ensures
        render_field(f, key, v, prefix, flatten, empty, filter, setting, top) == (
            Seq::<u8>::empty(),
            empty,
            false,
        ),
{
    reveal(render_field);
}

/// Renders one field through the filter, the key-path buffer and the value
/// renderers.
pub struct FieldFormatter<'a> {
    /// The formatter whose configuration governs the field.
    pub rf: &'a RecordFormatter,
}

impl<'a> FieldFormatter<'a> {
    /// A field renderer over the formatter's configuration.
    pub fn new(rf: &'a RecordFormatter) -> (r: FieldFormatter<'a>)
        ensures
            r.rf == rf,
    {
        FieldFormatter { rf }
    }

    /// Opens a field: a flattened object field only pushes its key onto
    /// the path; any other field emits its separator, key token and
    /// key/value separator, and suspends flatten mode for its value.
    pub fn begin(
        &self,
        buf: &mut Vec<u8>,
        key: &[u8],
        value: &RawValue,
        fs: &mut FormattingState,
    ) -> (v: FormattedFieldVariant)
        requires
            old(fs).wf(),
            key@.len() < usize::MAX,
        ensures
            final(fs).wf(),
            match v {
                FormattedFieldVariant::Flattened(n) => old(fs).flatten && (*value matches
                    RawValue::Object(_)) && n as int == push_delta(old(fs).key_prefix@, key@)
                    && final(fs).key_prefix@ == push_spec(old(fs).key_prefix@, key@)
                    && final(fs).flatten == old(fs).flatten && final(fs).empty == old(fs).empty
                    && final(buf)@ == old(buf)@,
                FormattedFieldVariant::Normal { flatten } => !(old(fs).flatten && (*value matches
                    RawValue::Object(_))) && flatten == old(fs).flatten && final(fs).key_prefix@
                    == old(fs).key_prefix@ && !final(fs).flatten && !final(fs).empty
                    && final(buf)@ == old(buf)@ + begin_normal_bytes(
                    *self.rf,
                    key@,
                    old(fs).key_prefix@,
                    old(fs).flatten,
                    old(fs).empty,
                ),
            },
    {
        if fs.flatten && matches!(value, RawValue::Object(_)) {
            let n = fs.key_prefix.push(key);
            return FormattedFieldVariant::Flattened(n);
        }
        let variant = FormattedFieldVariant::Normal { flatten: fs.flatten };
        let ghost pre = buf@;
        fs.add_element(buf, &[0x20u8]);
        if fs.flatten {
            fs.flatten = false;
            if !fs.key_prefix.is_empty() {
                fs.key_prefix.format(buf);
                buf.push(0x2E);
            }
        }
        key_prettify(key, buf);
        extend_bytes(buf, self.rf.cfg.punctuation.field_key_value_separator.as_slice());
        proof {
            assert(buf@ =~= pre + begin_normal_bytes(
                *self.rf,
                key@,
                old(fs).key_prefix@,
                old(fs).flatten,
                old(fs).empty,
            ));
        }
        variant
    }

    /// Closes a field: restores exactly the flatten flag or the key-path
    /// bytes that its opening changed.
    pub fn end(&self, fs: &mut FormattingState, v: FormattedFieldVariant)
        requires
            old(fs).wf(),
        ensures
            final(fs).wf(),
            final(fs).empty == old(fs).empty,
            match v {
                FormattedFieldVariant::Normal { flatten } => final(fs).flatten == flatten
                    && final(fs).key_prefix@ == old(fs).key_prefix@,
                FormattedFieldVariant::Flattened(n) => final(fs).flatten == old(fs).flatten
                    && final(fs).key_prefix@ == pop_spec(old(fs).key_prefix@, n as int),
            },
    {
        match v {
            FormattedFieldVariant::Normal { flatten } => {
                fs.flatten = flatten;
            },
            FormattedFieldVariant::Flattened(n) => {
                fs.key_prefix.pop(n);
            },
        }
    }

    /// Renders one field: consults the filter, and either drops the field
    /// (reporting false) or opens it, renders its value, and restores the
    /// state it changed.
    #[verifier::rlimit(100)]
    pub fn format(
        &self,
        buf: &mut Vec<u8>,
        key: &[u8],
        value: &RawValue,
        fs: &mut FormattingState,
        filter: Option<&IncludeExcludeKeyFilter>,
        setting: IncludeExcludeSetting,
        top: bool,
    ) -> (shown: bool)
        requires
            old(fs).wf(),
            value_keys_fit(*value),
            key@.len() < usize::MAX,
        ensures
            final(fs).wf(),
            final(fs).key_prefix@ == old(fs).key_prefix@,
            final(fs).flatten == old(fs).flatten,
            ({
                let (b, e2, sh) = render_field(
                    *self.rf,
                    key@,
                    *value,
                    old(fs).key_prefix@,
                    old(fs).flatten,
                    old(fs).empty,
                    opt_filter(filter),
                    setting,
                    top,
                );
                final(buf)@ == old(buf)@ + b && final(fs).empty == e2 && shown == sh
            }),
        decreases *value, 1int, 0int,
    {
        let resolved: (Option<&IncludeExcludeKeyFilter>, IncludeExcludeSetting, bool) =
            match filter {
            Some(flt) => {
                let s1 = setting.apply(flt.setting());
                match flt.get(key) {
                    Some(child) => (Some(child), s1.apply(child.setting()), child.leaf()),
                    None => (None, s1, true),
                }
            },
            None => (None, setting, true),
        };
        let (cfilter, eff, leaf) = resolved;
        proof {
            assert((opt_filter(cfilter), eff, leaf) == resolve_filter(
                opt_filter(filter),
                setting,
                key@,
            ));
        }
        proof {
            lemma_render_field_cases(
                *self.rf,
                key@,
                *value,
                old(fs).key_prefix@,
                old(fs).flatten,
                old(fs).empty,
                opt_filter(filter),
                setting,
                top,
            );
        }
        if eff == IncludeExcludeSetting::Exclude && leaf {
            return false;
        }
        let ffv = self.begin(buf, key, value, fs);
        self.format_value(buf, value, fs, cfilter, eff, top);
        self.end(fs, ffv);
        proof {
            match ffv {
                FormattedFieldVariant::Flattened(n) => {
                    crate::keypath::lemma_push_pop_exact(old(fs).key_prefix@, key@);
                },
                FormattedFieldVariant::Normal { flatten } => {
                    let (vb, ve) = render_value(
                        *self.rf,
                        *value,
                        old(fs).key_prefix@,
                        false,
                        false,
                        opt_filter(cfilter),
                        eff,
                        top,
                    );
                    let head = begin_normal_bytes(
                        *self.rf,
                        key@,
                        old(fs).key_prefix@,
                        old(fs).flatten,
                        old(fs).empty,
                    );
                    assert((old(buf)@ + head) + vb =~= old(buf)@ + (head + vb));
                },
            }
        }
        true
    }

    /// Renders one value: scalars through the string formatters, objects
    /// member by member (braced unless flatten mode is live), arrays
    /// element by element with the configured separator and no filter.
    #[verifier::rlimit(100)]
    pub fn format_value(
        &self,
        buf: &mut Vec<u8>,
        value: &RawValue,
        fs: &mut FormattingState,
        filter: Option<&IncludeExcludeKeyFilter>,
        setting: IncludeExcludeSetting,
        top: bool,
    )
        requires
            old(fs).wf(),
            value_keys_fit(*value),
        ensures
            final(fs).wf(),
            final(fs).key_prefix@ == old(fs).key_prefix@,
            final(fs).flatten == old(fs).flatten,
            ({
                let (b, e2) = render_value(
                    *self.rf,
                    *value,
                    old(fs).key_prefix@,
                    old(fs).flatten,
                    old(fs).empty,
                    opt_filter(filter),
                    setting,
                    top,
                );
                final(buf)@ == old(buf)@ + b && final(fs).empty == e2
            }),
        decreases *value, 0int, 0int,
    {
        match value {
            RawValue::String(s) => {
                if self.rf.unescape_fields {
                    let begin = buf.len();
                    append_string_auto(s, buf, top);
                    buf.with_auto_trim(begin);
                    proof {
                        lemma_append_take_skip(old(buf)@, render_string_auto(*s, top));
                    }
                } else {
                    s.append_source(buf);
                }
            },
            RawValue::Number(d) => {
                extend_bytes(buf, d.as_slice());
            },
            RawValue::Boolean(bv) => {
                if *bv {
                    extend_bytes(buf, &[0x74u8, 0x72u8, 0x75u8, 0x65u8]);
                } else {
                    extend_bytes(buf, &[0x66u8, 0x61u8, 0x6Cu8, 0x73u8, 0x65u8]);
                }
            },
            RawValue::Null => {
                extend_bytes(buf, &[0x6Eu8, 0x75u8, 0x6Cu8, 0x6Cu8]);
            },
            RawValue::Object(fields) => {
                let ghost prefix0 = fs.key_prefix@;
                let ghost flatten0 = fs.flatten;
                let ghost empty0 = fs.empty;
                let ghost fullv = render_fields_from(
                    *self.rf,
                    fields@,
                    0,
                    prefix0,
                    flatten0,
                    empty0,
                    opt_filter(filter),
                    setting,
                );
                let flatten_now = fs.flatten;
                if !flatten_now {
                    buf.push(0x7B);
                }
                let ghost mid = buf@;
                let mut some_hidden = false;
                let mut i: usize = 0;
                while i < fields.len()
                    invariant
                        *value == RawValue::Object(*fields),
                        0 <= i <= fields@.len(),
                        fs.wf(),
                        fs.key_prefix@ == prefix0,
                        fs.flatten == flatten0,
                        fields_keys_fit(fields@, i as int),
                        buf@.len() >= mid.len(),
                        buf@.take(mid.len() as int) == mid,
                        ({
                            let (rb, re, rh) = render_fields_from(
                                *self.rf,
                                fields@,
                                i as int,
                                prefix0,
                                flatten0,
                                fs.empty,
                                opt_filter(filter),
                                setting,
                            );
                            fullv.0 == buf@.skip(mid.len() as int) + rb && fullv.1 == re
                                && fullv.2 == (some_hidden || rh)
                        }),
                    decreases fields@.len() - i,
                {
                    let ghost prev = buf@;
                    let ghost eb = fs.empty;
                    proof {
                        assert(decreases_to!(*value => (*value)->Object_0));
                        assert((*value)->Object_0 == *fields);
                        assert(decreases_to!(*fields => fields@));
                        assert(decreases_to!(fields@ => fields@[i as int]));
                        assert(decreases_to!(fields@[i as int] => fields@[i as int].1));
                    }
                    let shown = self.format(
                        buf,
                        fields[i].0.as_slice(),
                        &fields[i].1,
                        fs,
                        filter,
                        setting,
                        false,
                    );
                    some_hidden = some_hidden || !shown;
                    proof {
                        let (b1, e1, sh) = render_field(
                            *self.rf,
                            fields@[i as int].0@,
                            fields@[i as int].1,
                            prefix0,
                            flatten0,
                            eb,
                            opt_filter(filter),
                            setting,
                            false,
                        );
                        let (rb2, re2, rh2) = render_fields_from(
                            *self.rf,
                            fields@,
                            i + 1,
                            prefix0,
                            flatten0,
                            e1,
                            opt_filter(filter),
                            setting,
                        );
                        reveal(render_field);
                        reveal_with_fuel(render_fields_from, 2);
                        assert(render_fields_from(
                            *self.rf,
                            fields@,
                            i as int,
                            prefix0,
                            flatten0,
                            eb,
                            opt_filter(filter),
                            setting,
                        ) == (b1 + rb2, re2, !sh || rh2));
                        assert(buf@.take(mid.len() as int) =~= mid);
                        assert(buf@.skip(mid.len() as int) =~= prev.skip(mid.len() as int) + b1);
                        assert((prev.skip(mid.len() as int) + b1) + rb2 =~= prev.skip(
                            mid.len() as int,
                        ) + (b1 + rb2));
                    }
                    i = i + 1;
                }
                proof {
                    assert(buf@.skip(mid.len() as int) + Seq::<u8>::empty() =~= buf@.skip(
                        mid.len() as int,
                    ));
                    assert(mid + buf@.skip(mid.len() as int) =~= buf@);
                }
                if some_hidden {
                    extend_bytes(
                        buf,
                        self.rf.cfg.punctuation.hidden_fields_indicator.as_slice(),
                    );
                }
                if !flatten_now {
                    if fields.len() != 0 {
                        buf.push(0x20);
                    }
                    buf.push(0x7D);
                    proof {
                        assert(buf@ =~= old(buf)@ + (seq![0x7Bu8] + fullv.0 + ind_if(
                            *self.rf,
                            fullv.2,
                        ) + close_brace(fields@.len() as int)));
                    }
                } else {
                    proof {
                        assert(buf@ =~= old(buf)@ + (fullv.0 + ind_if(*self.rf, fullv.2)));
                    }
                }
            },
            RawValue::Array(elems) => {
                let ghost prefix0 = fs.key_prefix@;
                let ghost flatten0 = fs.flatten;
                let ghost fullv = render_elems_from(
                    *self.rf,
                    elems@,
                    0,
                    prefix0,
                    flatten0,
                    fs.empty,
                );
                buf.push(0x5B);
                let ghost mid = buf@;
                let mut i: usize = 0;
                while i < elems.len()
                    invariant
                        *value == RawValue::Array(*elems),
                        0 <= i <= elems@.len(),
                        fs.wf(),
                        fs.key_prefix@ == prefix0,
                        fs.flatten == flatten0,
                        elems_keys_fit(elems@, i as int),
                        buf@.len() >= mid.len(),
                        buf@.take(mid.len() as int) == mid,
                        ({
                            let (rb, re) = render_elems_from(
                                *self.rf,
                                elems@,
                                i as int,
                                prefix0,
                                flatten0,
                                fs.empty,
                            );
                            fullv.0 == buf@.skip(mid.len() as int) + rb && fullv.1 == re
                        }),
                    decreases elems@.len() - i,
                {
                    let ghost prev = buf@;
                    let ghost eb = fs.empty;
                    let ghost sepb = if i > 0 {
                        self.rf.cfg.punctuation.array_separator@
                    } else {
                        Seq::<u8>::empty()
                    };
                    if i != 0 {
                        extend_bytes(buf, self.rf.cfg.punctuation.array_separator.as_slice());
                    }
                    proof {
                        assert(decreases_to!(*value => (*value)->Array_0));
                        assert((*value)->Array_0 == *elems);
                        assert(decreases_to!(*elems => elems@));
                        assert(decreases_to!(elems@ => elems@[i as int]));
                    }
                    self.format_value(
                        buf,
                        &elems[i],
                        fs,
                        None,
                        IncludeExcludeSetting::Unspecified,
                        false,
                    );
                    proof {
                        let (b1, e1) = render_value(
                            *self.rf,
                            elems@[i as int],
                            prefix0,
                            flatten0,
                            eb,
                            opt_filter(None),
                            IncludeExcludeSetting::Unspecified,
                            false,
                        );
                        let (rb2, re2) = render_elems_from(
                            *self.rf,
                            elems@,
                            i + 1,
                            prefix0,
                            flatten0,
                            e1,
                        );
                        assert(buf@.take(mid.len() as int) =~= mid);
                        assert(buf@.skip(mid.len() as int) =~= prev.skip(mid.len() as int) + (sepb
                            + b1));
                        assert((prev.skip(mid.len() as int) + (sepb + b1)) + rb2 =~= prev.skip(
                            mid.len() as int,
                        ) + ((sepb + b1) + rb2));
                        assert(sepb + b1 + rb2 =~= (sepb + b1) + rb2);
                    }
                    i = i + 1;
                }
                proof {
                    assert(buf@.skip(mid.len() as int) + Seq::<u8>::empty() =~= buf@.skip(
                        mid.len() as int,
                    ));
                    assert(mid + buf@.skip(mid.len() as int) =~= buf@);
                }
                buf.push(0x5D);
                proof {
                    assert(buf@ =~= old(buf)@ + (seq![0x5Bu8] + fullv.0 + seq![0x5Du8]));
                }
            },
        }
    }
}

impl RecordFormatter {
    /// Emits the head of the line: the timestamp column, the level slot
    /// and the logger, each optional and separated by single spaces.
    /// Emits the timestamp column.
    fn format_time(&self, buf: &mut Vec<u8>, fs: &mut FormattingState, rec: &Record)
        ensures
            final(fs).key_prefix == old(fs).key_prefix,
            final(fs).flatten == old(fs).flatten,
            final(buf)@ == old(buf)@ + render_time_slot(*self, *rec).0,
            final(fs).empty == (old(fs).empty && render_time_slot(*self, *rec).1),
    {
        match &rec.ts {
            Some(ts) => {
                fs.add_element(buf, &[]);
                match &ts.formatted {
                    Some(v) => append_aligned_left(buf, v.as_slice(), self.ts_width),
                    None => append_aligned_left(buf, ts.raw.as_slice(), self.ts_width),
                }
                proof {
                    assert(buf@ =~= old(buf)@ + render_time_slot(*self, *rec).0);
                }
            },
            None => {
                if self.always_show_time {
                    fs.add_element(buf, &[]);
                    append_dashes(buf, self.ts_width);
                    proof {
                        assert(buf@ =~= old(buf)@ + render_time_slot(*self, *rec).0);
                    }
                } else {
                    proof {
                        assert(buf@ =~= old(buf)@ + render_time_slot(*self, *rec).0);
                    }
                }
            },
        }
    }

    /// Emits the level slot.
    fn format_level(&self, buf: &mut Vec<u8>, fs: &mut FormattingState, rec: &Record)
        ensures
            final(fs).key_prefix == old(fs).key_prefix,
            final(fs).flatten == old(fs).flatten,
            final(buf)@ == old(buf)@ + render_level_bytes(*self, *rec, old(fs).empty).0,
            final(fs).empty == render_level_bytes(*self, *rec, old(fs).empty).1,
    {
        let ltok: Option<&[u8]> = match rec.level {
            Some(Level::Debug) => Some(&[0x44u8, 0x42u8, 0x47u8]),
            Some(Level::Info) => Some(&[0x49u8, 0x4Eu8, 0x46u8]),
            Some(Level::Warning) => Some(&[0x57u8, 0x52u8, 0x4Eu8]),
            Some(Level::Error) => Some(&[0x45u8, 0x52u8, 0x52u8]),
            None => if self.always_show_level {
                Some(&[0x28u8, 0x3Fu8, 0x29u8])
            } else {
                None
            },
        };
        proof {
            match level_slot(*self, rec.level) {
                Some(tok) => {
                    assert(ltok is Some && ltok.unwrap()@ =~= tok);
                },
                None => {
                    assert(ltok is None);
                },
            }
        }
        match ltok {
            Some(t) => {
                fs.add_element(buf, &[0x20u8]);
                extend_bytes(buf, self.cfg.punctuation.level_left_separator.as_slice());
                extend_bytes(buf, t);
                extend_bytes(buf, self.cfg.punctuation.level_right_separator.as_slice());
                proof {
                    assert(buf@ =~= old(buf)@ + render_level_bytes(
                        *self,
                        *rec,
                        old(fs).empty,
                    ).0);
                }
            },
            None => {},
        }
    }

    /// Emits the logger slot.
    fn format_logger(&self, buf: &mut Vec<u8>, fs: &mut FormattingState, rec: &Record)
        ensures
            final(fs).key_prefix == old(fs).key_prefix,
            final(fs).flatten == old(fs).flatten,
            final(buf)@ == old(buf)@ + render_logger_bytes(*self, *rec, old(fs).empty).0,
            final(fs).empty == render_logger_bytes(*self, *rec, old(fs).empty).1,
    {
        match &rec.logger {
            Some(lg) => {
                fs.add_element(buf, &[0x20u8]);
                extend_bytes(buf, lg.as_slice());
                extend_bytes(buf, self.cfg.punctuation.logger_name_separator.as_slice());
                proof {
                    assert(buf@ =~= old(buf)@ + render_logger_bytes(
                        *self,
                        *rec,
                        old(fs).empty,
                    ).0);
                }
            },
            None => {},
        }
    }

    /// Emits the head of the line: the timestamp column, the level slot
    /// and the logger, each optional and separated by single spaces.
    fn format_head(&self, buf: &mut Vec<u8>, fs: &mut FormattingState, rec: &Record)
        requires
            old(fs).wf(),
            old(fs).empty,
        ensures
            final(fs).wf(),
            final(fs).key_prefix == old(fs).key_prefix,
            final(fs).flatten == old(fs).flatten,
            final(buf)@ == old(buf)@ + render_head(*self, *rec).0,
            final(fs).empty == render_head(*self, *rec).1,
    {
        self.format_time(buf, fs, rec);
        self.format_level(buf, fs, rec);
        self.format_logger(buf, fs, rec);
        proof {
            let (tb, e1) = render_time_slot(*self, *rec);
            let (lb, e2) = render_level_bytes(*self, *rec, e1);
            let (gb, e3) = render_logger_bytes(*self, *rec, e2);
            assert(old(buf)@ + tb + lb + gb =~= old(buf)@ + (tb + lb + gb));
        }
    }

    /// Emits the message slot: a non-empty string message under the
    /// two-way message rules with its trailing whitespace trimmed, any
    /// other message value as a field keyed `msg`.
    pub fn format_message(&self, buf: &mut Vec<u8>, fs: &mut FormattingState, value: &RawValue)
        requires
            old(fs).wf(),
            old(fs).key_prefix@ == Seq::<u8>::empty(),
            value_keys_fit(*value),
        ensures
            final(fs).wf(),
            final(fs).key_prefix@ == Seq::<u8>::empty(),
            final(fs).flatten == old(fs).flatten,
            ({
                let (b, e2) = render_message_slot(
                    *self,
                    Some(*value),
                    old(fs).flatten,
                    old(fs).empty,
                );
                final(buf)@ == old(buf)@ + b && final(fs).empty == e2
            }),
    {
        match value {
            RawValue::String(s) => {
                if !s.is_empty() {
                    let ghost e0 = fs.empty;
                    fs.add_element(buf, &[0x20u8]);
                    let ghost mid = buf@;
                    let begin = buf.len();
                    append_message_auto(s, buf);
                    buf.with_auto_trim(begin);
                    proof {
                        lemma_append_take_skip(mid, render_message_auto(*s));
                        assert(buf@ =~= old(buf)@ + (sep_if(e0, seq![0x20u8]) + trim_ws_suffix(
                            render_message_auto(*s),
                        )));
                    }
                }
            },
            _ => {
                let ff = FieldFormatter::new(self);
                let _shown = ff.format(
                    buf,
                    &[0x6Du8, 0x73u8, 0x67u8],
                    value,
                    fs,
                    Some(&self.fields),
                    IncludeExcludeSetting::Unspecified,
                    true,
                );
            },
        }
    }

    /// Renders one record-level field under the root filter.
    pub fn format_field(
        &self,
        buf: &mut Vec<u8>,
        key: &[u8],
        value: &RawValue,
        fs: &mut FormattingState,
        filter: Option<&IncludeExcludeKeyFilter>,
    ) -> (shown: bool)
        requires
            old(fs).wf(),
            value_keys_fit(*value),
            key@.len() < usize::MAX,
        ensures
            final(fs).wf(),
            final(fs).key_prefix@ == old(fs).key_prefix@,
            final(fs).flatten == old(fs).flatten,
            ({
                let (b, e2, sh) = render_field(
                    *self,
                    key@,
                    *value,
                    old(fs).key_prefix@,
                    old(fs).flatten,
                    old(fs).empty,
                    opt_filter(filter),
                    IncludeExcludeSetting::Unspecified,
                    true,
                );
                final(buf)@ == old(buf)@ + b && final(fs).empty == e2 && shown == sh
            }),
    {
        let ff = FieldFormatter::new(self);
        ff.format(buf, key, value, fs, filter, IncludeExcludeSetting::Unspecified, true)
    }

    /// Emits every record-level field under the root filter, skipping the
    /// empty-valued ones when so configured, then one hidden-fields
    /// indicator if the filter hid any.
    #[verifier::rlimit(100)]
    fn format_top_fields(&self, buf: &mut Vec<u8>, fs: &mut FormattingState, rec: &Record)
        requires
            old(fs).wf(),
            old(fs).key_prefix@ == Seq::<u8>::empty(),
            fields_keys_fit(rec.fields@, 0),
        ensures
            final(fs).wf(),
            final(fs).key_prefix@ == Seq::<u8>::empty(),
            final(fs).flatten == old(fs).flatten,
            ({
                let (fb, e5, hidden) = render_top_fields_from(
                    *self,
                    rec.fields@,
                    0,
                    old(fs).flatten,
                    old(fs).empty,
                );
                final(buf)@ == old(buf)@ + (fb + ind_if(*self, hidden)) && final(fs).empty == e5
            }),
    {
        let ghost f = *self;
        let ghost flatten0 = fs.flatten;
        let ghost fullt = render_top_fields_from(f, rec.fields@, 0, flatten0, fs.empty);
        let mut some_hidden = false;
        let mut i: usize = 0;
        while i < rec.fields.len()
            invariant
                f == *self,
                0 <= i <= rec.fields@.len(),
                fs.wf(),
                fs.key_prefix@ == Seq::<u8>::empty(),
                fs.flatten == flatten0,
                fields_keys_fit(rec.fields@, i as int),
                buf@.len() >= old(buf)@.len(),
                buf@.take(old(buf)@.len() as int) == old(buf)@,
                fullt == render_top_fields_from(f, rec.fields@, 0, flatten0, old(fs).empty),
                ({
                    let (rb, re, rh) = render_top_fields_from(
                        f,
                        rec.fields@,
                        i as int,
                        flatten0,
                        fs.empty,
                    );
                    fullt.0 == buf@.skip(old(buf)@.len() as int) + rb && fullt.1 == re && fullt.2
                        == (some_hidden || rh)
                }),
            decreases rec.fields@.len() - i,
        {
            let hide = self.hide_empty_fields && rec.fields[i].1.is_empty();
            if !hide {
                let ghost prev = buf@;
                let ghost eb = fs.empty;
                let ff = FieldFormatter::new(self);
                let shown = ff.format(
                    buf,
                    rec.fields[i].0.as_slice(),
                    &rec.fields[i].1,
                    fs,
                    Some(&self.fields),
                    IncludeExcludeSetting::Unspecified,
                    true,
                );
                some_hidden = some_hidden || !shown;
                proof {
                    let (b1, e1, sh) = render_field(
                        f,
                        rec.fields@[i as int].0@,
                        rec.fields@[i as int].1,
                        Seq::<u8>::empty(),
                        flatten0,
                        eb,
                        opt_filter(Some(&f.fields)),
                        IncludeExcludeSetting::Unspecified,
                        true,
                    );
                    let (rb2, re2, rh2) = render_top_fields_from(
                        f,
                        rec.fields@,
                        i + 1,
                        flatten0,
                        e1,
                    );
                    assert(buf@.take(old(buf)@.len() as int) =~= old(buf)@);
                    assert(buf@.skip(old(buf)@.len() as int) =~= prev.skip(old(buf)@.len() as int)
                        + b1);
                    assert((prev.skip(old(buf)@.len() as int) + b1) + rb2 =~= prev.skip(
                        old(buf)@.len() as int,
                    ) + (b1 + rb2));
                }
            }
            i = i + 1;
        }
        proof {
            assert(buf@.skip(old(buf)@.len() as int) + Seq::<u8>::empty() =~= buf@.skip(
                old(buf)@.len() as int,
            ));
            assert(old(buf)@ + buf@.skip(old(buf)@.len() as int) =~= buf@);
        }
        if some_hidden {
            extend_bytes(buf, self.cfg.punctuation.hidden_fields_indicator.as_slice());
        }
        proof {
            assert(buf@ =~= old(buf)@ + (fullt.0 + ind_if(f, fullt.2)));
        }
    }

    /// Appends the whole line of one record: time, level, logger, message,
    /// fields (one hidden-fields indicator if the filter hid any), and
    /// caller.
    #[verifier::rlimit(100)]
    pub fn format_record(&self, buf: &mut Vec<u8>, rec: &Record)
        requires
            record_keys_fit(*rec),
        ensures
            final(buf)@ == old(buf)@ + render_record_spec(*self, *rec),
    {
        let ghost f = *self;
        let ghost flatten0 = self.flatten && self.unescape_fields;
        let mut fs = FormattingState::new(self.flatten && self.unescape_fields);
        self.format_head(buf, &mut fs, rec);
        let ghost hb = render_head(f, *rec).0;
        let ghost e3 = fs.empty;
        match &rec.message {
            Some(v) => {
                self.format_message(buf, &mut fs, v);
            },
            None => {},
        }
        let ghost mb = render_message_slot(f, rec.message, flatten0, e3).0;
        proof {
            assert(buf@ =~= old(buf)@ + (hb + mb));
        }
        let ghost e4 = fs.empty;
        let ghost fullt = render_top_fields_from(f, rec.fields@, 0, flatten0, e4);
        self.format_top_fields(buf, &mut fs, rec);
        let ghost done6 = hb + mb + (fullt.0 + ind_if(f, fullt.2));
        proof {
            assert(buf@ =~= old(buf)@ + done6);
        }
        match &rec.caller {
            Some(caller) => {
                buf.push(0x20);
                extend_bytes(buf, self.cfg.punctuation.source_location_separator.as_slice());
                match caller {
                    Caller::Text(t) => {
                        extend_bytes(buf, t.as_slice());
                    },
                    Caller::FileLine(file, line) => {
                        extend_bytes(buf, file.as_slice());
                        if line.len() != 0 {
                            buf.push(0x3A);
                            extend_bytes(buf, line.as_slice());
                        }
                    },
                }
            },
            None => {},
        }
        proof {
            lemma_record_assembly(f, *rec);
            assert(buf@ =~= old(buf)@ + (done6 + render_caller_slot(f, rec.caller)));
            assert(buf@ =~= old(buf)@ + render_record_spec(f, *rec));
        }
    }
}

/// Appends some rendering of a record that arrives with its source bytes.
pub trait RecordWithSourceFormatter {
    /// Appends the rendering into `buf`.
    fn format_record(&self, buf: &mut Vec<u8>, rec: &RecordWithSource)
        requires
            record_keys_fit(rec.record),
    ;
}

/// The no-formatting pass-through: appends a record's original source
/// bytes verbatim.
pub struct RawRecordFormatter {
}

impl RawRecordFormatter {
    /// Appends the record's source bytes unchanged.
    pub fn append_raw(&self, buf: &mut Vec<u8>, rec: &RecordWithSource)
        ensures
            final(buf)@ == old(buf)@ + rec.source@,
    {
        extend_bytes(buf, rec.source.as_slice());
    }
}

impl<T: RecordWithSourceFormatter> RecordWithSourceFormatter for &T {
    fn format_record(&self, buf: &mut Vec<u8>, rec: &RecordWithSource) {
        (**self).format_record(buf, rec);
    }
}

impl RecordWithSourceFormatter for RawRecordFormatter {
    fn format_record(&self, buf: &mut Vec<u8>, rec: &RecordWithSource) {
        self.append_raw(buf, rec);
    }
}

impl RecordWithSourceFormatter for RecordFormatter {
    fn format_record(&self, buf: &mut Vec<u8>, rec: &RecordWithSource) {
        RecordFormatter::format_record(self, buf, &rec.record);
    }
}

} // verus!
