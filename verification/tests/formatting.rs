use logfmt::filter::{IncludeExcludeKeyFilter, IncludeExcludeSetting};
use logfmt::fmtbuf::WithAutoTrim;
use logfmt::format::{
    Formatting, Punctuation, RawRecordFormatter, RecordFormatter, RecordWithSourceFormatter,
};
use logfmt::keypath::KeyPrefix;
use logfmt::mask::{compute_mask, select_quoting_of, Quoting};
use logfmt::model::{Caller, EncodedString, Level, RawValue, Record, RecordWithSource, Timestamp};

fn empty_record() -> Record {
    Record {
        ts: None,
        level: None,
        logger: None,
        message: None,
        fields: Vec::new(),
        caller: None,
    }
}

fn formatter() -> RecordFormatter {
    RecordFormatter::new(
        21,
        false,
        IncludeExcludeKeyFilter::new(IncludeExcludeSetting::Unspecified),
        Formatting {
            punctuation: Punctuation::test_default(),
        },
    )
}

fn formatter_with_filter(fields: IncludeExcludeKeyFilter) -> RecordFormatter {
    RecordFormatter::new(
        21,
        false,
        fields,
        Formatting {
            punctuation: Punctuation::test_default(),
        },
    )
}

fn format(f: &RecordFormatter, rec: &Record) -> String {
    let mut buf = Vec::new();
    f.format_record(&mut buf, rec);
    String::from_utf8(buf).unwrap()
}

fn raw(s: &str) -> RawValue {
    RawValue::String(EncodedString::Raw(s.as_bytes().to_vec()))
}

fn json(s: &str) -> RawValue {
    RawValue::String(EncodedString::Json(s.as_bytes().to_vec()))
}

fn field_record(key: &str, value: RawValue) -> Record {
    let mut rec = empty_record();
    rec.fields.push((key.as_bytes().to_vec(), value));
    rec
}

#[test]
fn test_string_value_raw() {
    let rec = field_record("k", raw("v"));
    assert_eq!(format(&formatter(), &rec), "k=v");
}

#[test]
fn test_string_value_json_simple() {
    let rec = field_record("k", json(r#""some-value""#));
    assert_eq!(format(&formatter(), &rec), r#"k=some-value"#);
}

#[test]
fn test_string_value_json_with_space() {
    let rec = field_record("k", json(r#""some value""#));
    assert_eq!(format(&formatter(), &rec), r#"k="some value""#);
}

#[test]
fn test_string_value_json_with_space_and_double_quotes() {
    let rec = field_record("k", json(r#""some \"value\"""#));
    assert_eq!(format(&formatter(), &rec), r#"k='some "value"'"#);
}

#[test]
fn test_string_value_json_with_space_and_single_quotes() {
    let rec = field_record("k", json(r#""some 'value'""#));
    assert_eq!(format(&formatter(), &rec), r#"k="some 'value'""#);
}

#[test]
fn test_string_value_json_with_space_and_backticks() {
    let rec = field_record("k", json(r#""some `value`""#));
    assert_eq!(format(&formatter(), &rec), r#"k="some `value`""#);
}

#[test]
fn test_string_value_json_with_space_and_double_and_single_quotes() {
    let rec = field_record("k", json(r#""some \"value\" from 'source'""#));
    assert_eq!(format(&formatter(), &rec), r#"k=`some "value" from 'source'`"#);
}

#[test]
fn test_string_value_json_with_backslash() {
    let rec = field_record("k", json(r#""some-\\\"value\\\"""#));
    assert_eq!(format(&formatter(), &rec), r#"k=`some-\"value\"`"#);
}

#[test]
fn test_string_value_json_with_space_and_double_and_single_quotes_and_backticks() {
    let rec = field_record("k", json(r#""some \"value\" from 'source' with `sauce`""#));
    assert_eq!(
        format(&formatter(), &rec),
        r#"k="some \"value\" from 'source' with `sauce`""#
    );
}

#[test]
fn test_string_value_json_with_extended_space() {
    let rec = field_record("k", json(r#""some\tvalue""#));
    assert_eq!(format(&formatter(), &rec), "k=`some\tvalue`");
}

#[test]
fn test_string_value_json_with_control_characters() {
    let rec = field_record("k", json(r#""some-\u001b[1mvalue\u001b[0m""#));
    assert_eq!(format(&formatter(), &rec), r#"k="some-\u001b[1mvalue\u001b[0m""#);
}

#[test]
fn test_string_value_json_with_control_characters_and_quotes() {
    let rec = field_record("k", json(r#""some-\u001b[1m\"value\"\u001b[0m""#));
    assert_eq!(
        format(&formatter(), &rec),
        r#"k="some-\u001b[1m\"value\"\u001b[0m""#
    );
}

#[test]
fn test_message_double_quoted() {
    let mut rec = empty_record();
    rec.message = Some(raw(r#""hello, world""#));
    assert_eq!(format(&formatter(), &rec), r#""\"hello, world\"""#);
}

#[test]
fn test_message_with_equal_sign_quoted() {
    let mut rec = empty_record();
    rec.message = Some(json(r#""a=b""#));
    assert_eq!(format(&formatter(), &rec), r#""a=b""#);
}

#[test]
fn test_message_plain_emitted_bare() {
    let mut rec = empty_record();
    rec.message = Some(json(r#""tm""#));
    assert_eq!(format(&formatter(), &rec), "tm");
}

#[test]
fn test_message_trailing_whitespace_trimmed() {
    let mut rec = empty_record();
    rec.message = Some(raw("hello   "));
    assert_eq!(format(&formatter(), &rec), "hello");
}

#[test]
fn test_level_none_plain() {
    let mut rec = empty_record();
    rec.message = Some(json(r#""tm""#));
    rec.level = Some(Level::Error);
    assert_eq!(format(&formatter(), &rec), "|ERR| tm");
}

#[test]
fn test_level_none_always_show_plain() {
    let rec = {
        let mut rec = empty_record();
        rec.message = Some(json(r#""tm""#));
        rec
    };
    assert_eq!(
        format(&formatter().with_always_show_level(true), &rec),
        "|(?)| tm"
    );
    assert_eq!(format(&formatter(), &rec), "tm");
}

#[test]
fn test_timestamp_none_always_show_plain() {
    let mut rec = empty_record();
    rec.message = Some(json(r#""tm""#));
    assert_eq!(
        format(&formatter().with_always_show_time(true), &rec),
        "--------------------- tm"
    );
}

#[test]
fn test_nested_objects_plain() {
    let inner = RawValue::Object(vec![
        (b"kb".to_vec(), RawValue::Number(b"42".to_vec())),
        (b"kc".to_vec(), RawValue::Number(b"43".to_vec())),
    ]);
    let ka = RawValue::Object(vec![(b"va".to_vec(), inner)]);
    let rec = Record {
        ts: Some(Timestamp {
            raw: b"2000-01-02T03:04:05.123Z".to_vec(),
            formatted: Some(b"00-01-02 03:04:05.123".to_vec()),
        }),
        level: Some(Level::Debug),
        logger: Some(b"tl".to_vec()),
        message: Some(json(r#""tm""#)),
        fields: vec![(b"k_a".to_vec(), ka)],
        caller: Some(Caller::Text(b"tc".to_vec())),
    };
    assert_eq!(
        format(&formatter(), &rec),
        "00-01-02 03:04:05.123 |DBG| tl: tm k-a={ va={ kb=42 kc=43 } } @ tc"
    );
    assert_eq!(
        format(&formatter().with_flatten(true), &rec),
        "00-01-02 03:04:05.123 |DBG| tl: tm k-a.va.kb=42 k-a.va.kc=43 @ tc"
    );
}

#[test]
fn test_flatten_round_trip() {
    let inner = RawValue::Object(vec![
        (b"b".to_vec(), RawValue::Number(b"1".to_vec())),
        (b"c".to_vec(), RawValue::Number(b"2".to_vec())),
    ]);
    let value = RawValue::Object(vec![(b"a".to_vec(), inner)]);
    let rec = field_record("k", value);
    assert_eq!(
        format(&formatter().with_flatten(true), &rec),
        "k.a.b=1 k.a.c=2"
    );
    assert_eq!(format(&formatter(), &rec), "k={ a={ b=1 c=2 } }");
}

#[test]
fn test_key_prefix_push_pop_restores() {
    let mut prefix = KeyPrefix::new();
    let mut before = Vec::new();
    prefix.format(&mut before);
    let n1 = prefix.push(b"outer_key");
    let n2 = prefix.push(b"inner");
    let mut during = Vec::new();
    prefix.format(&mut during);
    assert_eq!(during, b"outer-key.inner".to_vec());
    prefix.pop(n2);
    prefix.pop(n1);
    let mut after = Vec::new();
    prefix.format(&mut after);
    assert_eq!(after, before);
}

#[test]
fn test_filter_excluded_leaves_hidden_once() {
    let filter = IncludeExcludeKeyFilter::new(IncludeExcludeSetting::Unspecified)
        .with_child(
            b"secret".to_vec(),
            IncludeExcludeKeyFilter::new(IncludeExcludeSetting::Exclude),
        )
        .with_child(
            b"token".to_vec(),
            IncludeExcludeKeyFilter::new(IncludeExcludeSetting::Exclude),
        );
    let mut rec = empty_record();
    rec.fields.push((b"a".to_vec(), RawValue::Number(b"1".to_vec())));
    rec.fields.push((b"secret".to_vec(), RawValue::Number(b"2".to_vec())));
    rec.fields.push((b"token".to_vec(), RawValue::Number(b"3".to_vec())));
    assert_eq!(format(&formatter_with_filter(filter), &rec), "a=1 ...");
}

#[test]
fn test_filter_exclusion_inside_object() {
    let obj_filter = IncludeExcludeKeyFilter::new(IncludeExcludeSetting::Unspecified).with_child(
        b"secret".to_vec(),
        IncludeExcludeKeyFilter::new(IncludeExcludeSetting::Exclude),
    );
    let filter = IncludeExcludeKeyFilter::new(IncludeExcludeSetting::Unspecified)
        .with_child(b"obj".to_vec(), obj_filter);
    let value = RawValue::Object(vec![
        (b"a".to_vec(), RawValue::Number(b"1".to_vec())),
        (b"secret".to_vec(), RawValue::Number(b"2".to_vec())),
    ]);
    let rec = field_record("obj", value);
    assert_eq!(format(&formatter_with_filter(filter), &rec), "obj={ a=1 ... }");
}

#[test]
fn test_filter_include_overrides_inherited_exclude() {
    let filter = IncludeExcludeKeyFilter::new(IncludeExcludeSetting::Exclude).with_child(
        b"keep".to_vec(),
        IncludeExcludeKeyFilter::new(IncludeExcludeSetting::Include),
    );
    let mut rec = empty_record();
    rec.fields.push((b"keep".to_vec(), RawValue::Number(b"1".to_vec())));
    rec.fields.push((b"drop".to_vec(), RawValue::Number(b"2".to_vec())));
    assert_eq!(format(&formatter_with_filter(filter), &rec), "keep=1 ...");
}

#[test]
fn test_empty_string_value_renders_empty_token() {
    let rec = field_record("k", json(r#""""#));
    assert_eq!(format(&formatter(), &rec), r#"k="""#);
    assert_eq!(format(&formatter().with_flatten(true), &rec), r#"k="""#);
    assert_eq!(
        format(&formatter().with_field_unescaping(false), &rec),
        r#"k="""#
    );
}

#[test]
fn test_scalar_values_render_canonically() {
    let mut rec = empty_record();
    rec.fields.push((b"n".to_vec(), RawValue::Number(b"42".to_vec())));
    rec.fields.push((b"t".to_vec(), RawValue::Boolean(true)));
    rec.fields.push((b"f".to_vec(), RawValue::Boolean(false)));
    rec.fields.push((b"z".to_vec(), RawValue::Null));
    assert_eq!(format(&formatter(), &rec), "n=42 t=true f=false z=null");
}

#[test]
fn test_array_values_with_separator() {
    let value = RawValue::Array(vec![
        RawValue::Number(b"1".to_vec()),
        RawValue::Number(b"2".to_vec()),
        json(r#""x y""#),
    ]);
    let rec = field_record("a", value);
    assert_eq!(format(&formatter(), &rec), r#"a=[1,2,"x y"]"#);
}

#[test]
fn test_hide_empty_fields() {
    let f = RecordFormatter::new(
        21,
        true,
        IncludeExcludeKeyFilter::new(IncludeExcludeSetting::Unspecified),
        Formatting {
            punctuation: Punctuation::test_default(),
        },
    );
    let mut rec = empty_record();
    rec.fields.push((b"e".to_vec(), raw("")));
    rec.fields.push((b"o".to_vec(), RawValue::Object(Vec::new())));
    rec.fields.push((b"a".to_vec(), RawValue::Number(b"1".to_vec())));
    assert_eq!(format(&f, &rec), "a=1");
}

#[test]
fn test_field_unescaping_off_keeps_source_bytes() {
    let rec = field_record("k", json(r#""a\tb""#));
    assert_eq!(
        format(&formatter().with_field_unescaping(false), &rec),
        r#"k="a\tb""#
    );
}

#[test]
fn test_malformed_json_string_passes_through() {
    let rec = field_record("k", json(r#""bad\q""#));
    assert_eq!(format(&formatter(), &rec), r#"k="bad\q""#);
}

#[test]
fn test_unicode_escape_decodes_to_utf8() {
    let rec = field_record("k", json(r#""\u00e9\u0142""#));
    assert_eq!(format(&formatter(), &rec), "k=\u{e9}\u{142}");
}

#[test]
fn test_literal_utf8_passes_through() {
    let rec = field_record("k", json(r#""éł""#));
    assert_eq!(format(&formatter(), &rec), "k=\u{e9}\u{142}");
}

#[test]
fn test_surrogate_pair_decodes() {
    let rec = field_record("k", json(r#""\ud83d\ude00""#));
    assert_eq!(format(&formatter(), &rec), "k=\u{1f600}");
}

#[test]
fn test_lone_surrogate_passes_through_raw() {
    let rec = field_record("k", json(r#""\ud83d""#));
    assert_eq!(format(&formatter(), &rec), r#"k="\ud83d""#);
}

#[test]
fn test_value_format_structs() {
    let mut buf = Vec::new();
    logfmt::strfmt::ValueFormatAuto::new(EncodedString::Json(br#""a b""#.to_vec()))
        .format(&mut buf);
    assert_eq!(buf, br#""a b""#.to_vec());
    let mut buf = Vec::new();
    logfmt::strfmt::ValueFormatRaw::new(EncodedString::Json(br#""a b""#.to_vec()))
        .format(&mut buf);
    assert_eq!(buf, b"a b".to_vec());
    let mut buf = Vec::new();
    logfmt::strfmt::ValueFormatDoubleQuoted::new(EncodedString::Raw(br#"a "b""#.to_vec()))
        .format(&mut buf);
    assert_eq!(buf, br#""a \"b\"""#.to_vec());
    let mut buf = Vec::new();
    logfmt::strfmt::MessageFormatAuto::new(EncodedString::Raw(b"m=1".to_vec())).format(&mut buf);
    assert_eq!(buf, br#""m=1""#.to_vec());
    let mut buf = Vec::new();
    logfmt::strfmt::MessageFormatRaw::new(EncodedString::Json(br#""a\nb""#.to_vec()))
        .format(&mut buf);
    assert_eq!(buf, b"a\nb".to_vec());
    let mut buf = Vec::new();
    logfmt::strfmt::MessageFormatDoubleQuoted::new(EncodedString::Raw(b"m".to_vec()))
        .format(&mut buf);
    assert_eq!(buf, br#""m""#.to_vec());
}

#[test]
fn test_bare_value_with_leading_bracket_quoted() {
    let rec = field_record("k", json(r#""[1]""#));
    assert_eq!(format(&formatter(), &rec), r#"k="[1]""#);
}

#[test]
fn test_duplicate_keys_rendered_independently() {
    let mut rec = empty_record();
    rec.fields.push((b"k".to_vec(), RawValue::Number(b"1".to_vec())));
    rec.fields.push((b"k".to_vec(), RawValue::Number(b"2".to_vec())));
    assert_eq!(format(&formatter(), &rec), "k=1 k=2");
}

#[test]
fn test_caller_file_line() {
    let mut rec = empty_record();
    rec.message = Some(json(r#""tm""#));
    rec.caller = Some(Caller::FileLine(b"main.rs".to_vec(), b"10".to_vec()));
    assert_eq!(format(&formatter(), &rec), "tm @ main.rs:10");
}

#[test]
fn test_timestamp_raw_fallback_padded() {
    let mut rec = empty_record();
    rec.ts = Some(Timestamp {
        raw: b"12:30".to_vec(),
        formatted: None,
    });
    rec.message = Some(json(r#""tm""#));
    assert_eq!(format(&formatter(), &rec), "12:30                 tm");
}

#[test]
fn test_raw_record_formatter_passthrough() {
    let rws = RecordWithSource {
        record: empty_record(),
        source: b"{\"original\":1}".to_vec(),
    };
    let mut buf = b"x".to_vec();
    RawRecordFormatter {}.format_record(&mut buf, &rws);
    assert_eq!(buf, b"x{\"original\":1}".to_vec());
}

#[test]
fn test_with_auto_trim_scoped() {
    let mut buf = b"keep  ".to_vec();
    let begin = buf.len();
    buf.extend_from_slice(b"tail \t ");
    buf.with_auto_trim(begin);
    assert_eq!(buf, b"keep  tail".to_vec());
}

#[test]
fn test_quote_selection_total_and_deterministic() {
    let runs: [&[u8]; 5] = [b"plain", b"a b", b"a \"b\"", b"a \"b\" 'c'", b"a\x01b"];
    for bytes in runs.iter() {
        let m1 = compute_mask(bytes);
        let m2 = compute_mask(bytes);
        let q1 = select_quoting_of(m1, bytes[0], true);
        let q2 = select_quoting_of(m2, bytes[0], true);
        assert_eq!(q1, q2);
        assert!(matches!(
            q1,
            Quoting::Bare
                | Quoting::DoubleQuoted
                | Quoting::SingleQuoted
                | Quoting::Backticked
                | Quoting::Escaped
        ));
    }
    assert_eq!(
        select_quoting_of(compute_mask(b"plain"), b'p', true),
        Quoting::Bare
    );
    assert_eq!(
        select_quoting_of(compute_mask(b"a \"b\""), b'a', true),
        Quoting::SingleQuoted
    );
}

#[test]
fn test_message_empty_emits_nothing() {
    let mut rec = empty_record();
    rec.level = Some(Level::Info);
    rec.message = Some(json(r#""""#));
    assert_eq!(format(&formatter(), &rec), "|INF|");
}
