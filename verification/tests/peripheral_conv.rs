use tixml2svd::diag::{Diag, Error};
use tixml2svd::events::{Attr, ElemEvent, OutEvent};
use tixml2svd::peripheral::process_peripheral_events;
use tixml2svd::Args;

fn a(n: &str, v: &str) -> Attr {
    Attr::new(n.to_string(), v.to_string())
}

fn start(n: &str, attrs: Vec<Attr>) -> ElemEvent {
    ElemEvent::start(n.to_string(), attrs)
}

fn end(n: &str) -> ElemEvent {
    ElemEvent::end(n.to_string())
}

/// The text of the element opened by the first `tag` opening tag.
fn text_after(out: &[OutEvent], tag: &str) -> Option<String> {
    let mut it = out.iter();
    while let Some(e) = it.next() {
        if let OutEvent::StartTag(n) = e {
            if n == tag {
                if let Some(OutEvent::Text(t)) = it.next() {
                    return Some(t.clone());
                }
                return None;
            }
        }
    }
    None
}

/// All texts of elements opened by `tag` opening tags.
fn texts_of(out: &[OutEvent], tag: &str) -> Vec<String> {
    let mut r = Vec::new();
    let mut it = out.iter().peekable();
    while let Some(e) = it.next() {
        if let OutEvent::StartTag(n) = e {
            if n == tag {
                if let Some(OutEvent::Text(t)) = it.peek() {
                    r.push(t.clone());
                }
            }
        }
    }
    r
}

fn count_start_tags(out: &[OutEvent], tag: &str) -> usize {
    out.iter()
        .filter(|e| matches!(e, OutEvent::StartTag(n) if n == tag))
        .count()
}

fn strict() -> Args {
    Args::new(true, 0, true, false, false, 0)
}

fn sanitize() -> Args {
    Args::new(true, 0, true, true, false, 0)
}

#[test]
fn reset_value_is_or_of_contributions() {
    // register width 8; field A: end=0,width=4,resetValue=0x5;
    // field B: end=4,width=4,resetValue=0xA -> resetValue 0xA5
    let events = vec![
        start("module", vec![a("id", "TIMER")]),
        start("register", vec![a("id", "CTRL"), a("width", "8")]),
        start("bitfield", vec![a("id", "A"), a("end", "0"), a("width", "4"), a("resetval", "0x5")]),
        end("bitfield"),
        start("bitfield", vec![a("id", "B"), a("end", "4"), a("width", "4"), a("resetval", "0xA")]),
        end("bitfield"),
        end("register"),
        end("module"),
    ];
    let c = process_peripheral_events(&strict(), &events);
    assert!(c.err.is_none());
    assert_eq!(text_after(&c.out, "resetValue").as_deref(), Some("0xA5"));
}

#[test]
fn reset_value_without_fields_is_zero() {
    let events = vec![
        start("module", vec![]),
        start("register", vec![a("id", "CTRL")]),
        end("register"),
        end("module"),
    ];
    let c = process_peripheral_events(&strict(), &events);
    assert!(c.err.is_none());
    assert_eq!(text_after(&c.out, "resetValue").as_deref(), Some("0"));
}

#[test]
fn register_reset_attribute_never_enters_accumulator() {
    // the accumulator holds validated field contributions alone
    let events = vec![
        start("module", vec![]),
        start("register", vec![a("id", "CTRL"), a("width", "8"), a("resetval", "16")]),
        start("bitfield", vec![a("id", "A"), a("end", "0"), a("width", "4"), a("resetval", "5")]),
        end("bitfield"),
        end("register"),
        end("module"),
    ];
    let c = process_peripheral_events(&strict(), &events);
    assert!(c.err.is_none());
    assert_eq!(text_after(&c.out, "resetValue").as_deref(), Some("0x5"));
}

#[test]
fn register_reset_attribute_alone_renders_zero() {
    let events = vec![
        start("module", vec![]),
        start("register", vec![a("id", "CTRL"), a("width", "8"), a("resetval", "2")]),
        end("register"),
        end("module"),
    ];
    let c = process_peripheral_events(&strict(), &events);
    assert!(c.err.is_none());
    assert_eq!(text_after(&c.out, "resetValue").as_deref(), Some("0"));
}

#[test]
fn malformed_register_reset_attribute_is_fatal_in_strict() {
    let events = vec![
        start("module", vec![]),
        start("register", vec![a("id", "CTRL"), a("resetval", "zz")]),
    ];
    let c = process_peripheral_events(&strict(), &events);
    assert!(matches!(c.err, Some(Error::MalformedNumber { .. })));
}

#[test]
fn malformed_register_reset_attribute_is_warned_under_sanitize() {
    let events = vec![
        start("module", vec![]),
        start("register", vec![a("id", "CTRL"), a("resetval", "zz")]),
        end("register"),
        end("module"),
    ];
    let c = process_peripheral_events(&sanitize(), &events);
    assert!(c.err.is_none());
    assert_eq!(text_after(&c.out, "resetValue").as_deref(), Some("0"));
    assert!(c
        .diags
        .iter()
        .any(|d| matches!(d, Diag::BadResetValue { value } if value == "zz")));
}

#[test]
fn field_too_wide_is_fatal_in_strict() {
    // end=6, width=4, register width 8: 10 > 8
    let events = vec![
        start("module", vec![]),
        start("register", vec![a("id", "CTRL"), a("width", "8")]),
        start("bitfield", vec![a("id", "A"), a("end", "6"), a("width", "4"), a("resetval", "1")]),
    ];
    let c = process_peripheral_events(&strict(), &events);
    assert!(matches!(
        c.err,
        Some(Error::FieldTooWide { end: 6, width: 4, register_width: 8, .. })
    ));
}

#[test]
fn field_too_wide_is_fatal_in_sanitize_too() {
    let events = vec![
        start("module", vec![]),
        start("register", vec![a("id", "CTRL"), a("width", "8")]),
        start("bitfield", vec![a("id", "A"), a("end", "6"), a("width", "4"), a("resetval", "1")]),
    ];
    let c = process_peripheral_events(&sanitize(), &events);
    assert!(matches!(
        c.err,
        Some(Error::FieldTooWide { end: 6, width: 4, register_width: 8, .. })
    ));
}

#[test]
fn reset_overflow_is_fatal_in_strict() {
    // end=4, width=4, resetValue=0x1F, register width 8: 0x1F << 4 needs 9 bits
    let events = vec![
        start("module", vec![]),
        start("register", vec![a("id", "CTRL"), a("width", "8")]),
        start("bitfield", vec![a("id", "A"), a("end", "4"), a("width", "4"), a("resetval", "0x1F")]),
    ];
    let c = process_peripheral_events(&strict(), &events);
    assert!(matches!(c.err, Some(Error::ResetValueOverflow { value: 0x1F, .. })));
}

#[test]
fn reset_overflow_is_skipped_with_warning_under_sanitize() {
    let events = vec![
        start("module", vec![]),
        start("register", vec![a("id", "CTRL"), a("width", "8")]),
        start("bitfield", vec![a("id", "A"), a("end", "4"), a("width", "4"), a("resetval", "0x1F")]),
        end("bitfield"),
        end("register"),
        end("module"),
    ];
    let c = process_peripheral_events(&sanitize(), &events);
    assert!(c.err.is_none());
    // the contribution is omitted; the field's other elements are still emitted
    assert_eq!(text_after(&c.out, "resetValue").as_deref(), Some("0"));
    assert_eq!(count_start_tags(&c.out, "field"), 1);
    assert!(c
        .diags
        .iter()
        .any(|d| matches!(d, Diag::ResetValueTooBig { value: 0x1F, .. })));
}

#[test]
fn register_names_are_deduplicated_under_sanitize() {
    let mut events = vec![start("module", vec![])];
    for _ in 0..3 {
        events.push(start("register", vec![a("id", "CTRL")]));
        events.push(end("register"));
    }
    events.push(end("module"));
    let c = process_peripheral_events(&sanitize(), &events);
    assert!(c.err.is_none());
    assert_eq!(texts_of(&c.out, "name"), vec!["CTRL", "CTRL_", "CTRL__"]);
}

#[test]
fn register_names_are_kept_without_sanitize() {
    let events = vec![
        start("module", vec![]),
        start("register", vec![a("id", "CTRL")]),
        end("register"),
        start("register", vec![a("id", "CTRL")]),
        end("register"),
        end("module"),
    ];
    let c = process_peripheral_events(&strict(), &events);
    assert!(c.err.is_none());
    assert_eq!(texts_of(&c.out, "name"), vec!["CTRL", "CTRL"]);
}

#[test]
fn duplicate_enum_values_are_dropped_under_sanitize() {
    let events = vec![
        start("module", vec![]),
        start("register", vec![a("id", "CTRL")]),
        start("bitfield", vec![a("id", "A")]),
        start("bitenum", vec![a("id", "ONE"), a("value", "1")]),
        end("bitenum"),
        start("bitenum", vec![a("id", "OTHER"), a("value", "1")]),
        end("bitenum"),
        end("bitfield"),
        end("register"),
        end("module"),
    ];
    let c = process_peripheral_events(&sanitize(), &events);
    assert!(c.err.is_none());
    assert_eq!(count_start_tags(&c.out, "enumeratedValue"), 1);
    assert_eq!(texts_of(&c.out, "name"), vec!["CTRL", "A", "ONE"]);
    assert!(c
        .diags
        .iter()
        .any(|d| matches!(d, Diag::NonUniqueEnumValue { value } if value == "1")));
}

#[test]
fn duplicate_enum_values_are_kept_without_sanitize() {
    let events = vec![
        start("module", vec![]),
        start("register", vec![a("id", "CTRL")]),
        start("bitfield", vec![a("id", "A")]),
        start("bitenum", vec![a("id", "ONE"), a("value", "1")]),
        end("bitenum"),
        start("bitenum", vec![a("id", "OTHER"), a("value", "1")]),
        end("bitenum"),
        end("bitfield"),
        end("register"),
        end("module"),
    ];
    let c = process_peripheral_events(&strict(), &events);
    assert!(c.err.is_none());
    assert_eq!(count_start_tags(&c.out, "enumeratedValue"), 2);
}

#[test]
fn enum_name_defaults_to_value_under_sanitize() {
    let events = vec![
        start("module", vec![]),
        start("register", vec![a("id", "CTRL")]),
        start("bitfield", vec![a("id", "A")]),
        start("bitenum", vec![a("value", "3")]),
        end("bitenum"),
        end("bitfield"),
        end("register"),
        end("module"),
    ];
    let c = process_peripheral_events(&sanitize(), &events);
    assert_eq!(texts_of(&c.out, "name"), vec!["CTRL", "A", "3"]);
}

#[test]
fn field_description_carries_bit_range() {
    let events = vec![
        start("module", vec![]),
        start("register", vec![a("id", "CTRL"), a("width", "8")]),
        start(
            "bitfield",
            vec![a("id", "A"), a("begin", "7"), a("end", "4"), a("description", "mode bits")],
        ),
        end("bitfield"),
        end("register"),
        end("module"),
    ];
    let c = process_peripheral_events(&strict(), &events);
    assert!(c.err.is_none());
    // begin takes precedence over an explicit width: 7 - 4 + 1 = 4
    assert_eq!(text_after(&c.out, "bitWidth").as_deref(), Some("4"));
    assert_eq!(text_after(&c.out, "bitOffset").as_deref(), Some("4"));
    let descs = texts_of(&c.out, "description");
    assert!(descs.contains(&"[7:4] mode bits".to_string()));
}

#[test]
fn bit_range_is_suppressed_under_sanitize() {
    let events = vec![
        start("module", vec![]),
        start("register", vec![a("id", "CTRL")]),
        start("bitfield", vec![a("id", "A"), a("range", "[7:4]")]),
        end("bitfield"),
        end("register"),
        end("module"),
    ];
    let strict_out = process_peripheral_events(&strict(), &events);
    let sanitized_out = process_peripheral_events(&sanitize(), &events);
    assert_eq!(count_start_tags(&strict_out.out, "bitRange"), 1);
    assert_eq!(count_start_tags(&sanitized_out.out, "bitRange"), 0);
}

#[test]
fn register_access_code_is_translated() {
    let events = vec![
        start("module", vec![]),
        start("register", vec![a("id", "CTRL"), a("rwaccess", "RO")]),
        end("register"),
        end("module"),
    ];
    let c = process_peripheral_events(&strict(), &events);
    assert_eq!(text_after(&c.out, "access").as_deref(), Some("read"));
}

#[test]
fn unknown_access_code_is_dropped_with_diagnostic() {
    let events = vec![
        start("module", vec![]),
        start("register", vec![a("id", "CTRL"), a("rwaccess", "RA")]),
        end("register"),
        end("module"),
    ];
    let cfg = Args::new(false, 0, true, false, false, 0);
    let c = process_peripheral_events(&cfg, &events);
    assert_eq!(count_start_tags(&c.out, "access"), 0);
    assert!(c
        .diags
        .iter()
        .any(|d| matches!(d, Diag::UnknownAccess { key } if key == "RA")));
}

#[test]
fn register_description_falls_back_to_id() {
    let events = vec![
        start("module", vec![]),
        start("register", vec![a("id", "CTRL")]),
        end("register"),
        end("module"),
    ];
    let c = process_peripheral_events(&strict(), &events);
    assert_eq!(texts_of(&c.out, "description"), vec!["CTRL"]);
}

#[test]
fn malformed_register_width_is_fatal() {
    let events = vec![
        start("module", vec![]),
        start("register", vec![a("id", "CTRL"), a("width", "eight")]),
    ];
    let c = process_peripheral_events(&strict(), &events);
    assert!(matches!(c.err, Some(Error::MalformedNumber { .. })));
}

#[test]
fn malformed_field_offset_is_fatal_in_both_configurations() {
    let events = vec![
        start("module", vec![]),
        start("register", vec![a("id", "CTRL")]),
        start("bitfield", vec![a("id", "A"), a("end", "x")]),
    ];
    assert!(matches!(
        process_peripheral_events(&strict(), &events).err,
        Some(Error::MalformedNumber { .. })
    ));
    assert!(matches!(
        process_peripheral_events(&sanitize(), &events).err,
        Some(Error::MalformedNumber { .. })
    ));
}

#[test]
fn malformed_reset_value_is_ignored_with_warning_under_sanitize() {
    let events = vec![
        start("module", vec![]),
        start("register", vec![a("id", "CTRL"), a("width", "8")]),
        start("bitfield", vec![a("id", "A"), a("end", "0"), a("resetval", "zz")]),
        end("bitfield"),
        end("register"),
        end("module"),
    ];
    let c = process_peripheral_events(&sanitize(), &events);
    assert!(c.err.is_none());
    assert_eq!(text_after(&c.out, "resetValue").as_deref(), Some("0"));
    assert!(c
        .diags
        .iter()
        .any(|d| matches!(d, Diag::BadResetValue { value } if value == "zz")));
}

#[test]
fn malformed_reset_value_is_fatal_in_strict() {
    let events = vec![
        start("module", vec![]),
        start("register", vec![a("id", "CTRL"), a("width", "8")]),
        start("bitfield", vec![a("id", "A"), a("end", "0"), a("resetval", "zz")]),
    ];
    let c = process_peripheral_events(&strict(), &events);
    assert!(matches!(c.err, Some(Error::MalformedNumber { .. })));
}

#[test]
fn sanitize_trims_attribute_values() {
    let events = vec![
        start("module", vec![]),
        start("register", vec![a("id", "  CTRL  "), a("width", " 8 ")]),
        end("register"),
        end("module"),
    ];
    let c = process_peripheral_events(&sanitize(), &events);
    assert!(c.err.is_none());
    assert_eq!(texts_of(&c.out, "name"), vec!["CTRL"]);
    assert_eq!(text_after(&c.out, "size").as_deref(), Some("8"));
}

#[test]
fn peripheral_only_wraps_module_and_names_it() {
    let events = vec![
        start("module", vec![a("id", "UART"), a("description", "serial port")]),
        end("module"),
    ];
    let c = process_peripheral_events(&strict(), &events);
    assert_eq!(count_start_tags(&c.out, "peripheral"), 1);
    assert_eq!(texts_of(&c.out, "name"), vec!["UART"]);
    assert_eq!(texts_of(&c.out, "description"), vec!["serial port"]);
    // the last event must close the wrapper
    assert!(matches!(c.out.last(), Some(OutEvent::EndTag)));
}

#[test]
fn spliced_module_adds_no_wrapper() {
    let cfg = Args::new(true, 0, false, false, false, 0);
    let events = vec![start("module", vec![a("id", "UART")]), end("module")];
    let c = process_peripheral_events(&cfg, &events);
    assert!(c.err.is_none());
    assert_eq!(c.out.len(), 0);
}

#[test]
fn register_width_defaults_to_32() {
    let events = vec![
        start("module", vec![]),
        start("register", vec![a("id", "CTRL")]),
        start("bitfield", vec![a("id", "A"), a("end", "31"), a("width", "1"), a("resetval", "1")]),
        end("bitfield"),
        end("register"),
        end("module"),
    ];
    let c = process_peripheral_events(&strict(), &events);
    assert!(c.err.is_none());
    assert_eq!(text_after(&c.out, "resetValue").as_deref(), Some("0x80000000"));
    // one bit above the default width no longer fits
    let too_wide = vec![
        start("module", vec![]),
        start("register", vec![a("id", "CTRL")]),
        start("bitfield", vec![a("id", "A"), a("end", "32"), a("width", "1"), a("resetval", "1")]),
    ];
    let c2 = process_peripheral_events(&strict(), &too_wide);
    assert!(matches!(c2.err, Some(Error::FieldTooWide { register_width: 32, .. })));
}

#[test]
fn register_width_beyond_accumulator_is_rejected() {
    let events = vec![
        start("module", vec![]),
        start("register", vec![a("id", "CTRL"), a("width", "65")]),
    ];
    let c = process_peripheral_events(&strict(), &events);
    assert!(matches!(c.err, Some(Error::MalformedNumber { .. })));
}

#[test]
fn sixty_four_bit_registers_pack() {
    let events = vec![
        start("module", vec![]),
        start("register", vec![a("id", "CTRL"), a("width", "64")]),
        start(
            "bitfield",
            vec![a("id", "A"), a("end", "63"), a("width", "1"), a("resetval", "1")],
        ),
        end("bitfield"),
        end("register"),
        end("module"),
    ];
    let c = process_peripheral_events(&strict(), &events);
    assert!(c.err.is_none());
    assert_eq!(
        text_after(&c.out, "resetValue").as_deref(),
        Some("0x8000000000000000")
    );
}

#[test]
fn misplaced_elements_are_ignored() {
    // a register outside any module, and a bitenum outside any field
    let events = vec![
        start("register", vec![a("id", "CTRL")]),
        start("module", vec![]),
        start("bitenum", vec![a("value", "1")]),
        end("module"),
    ];
    let c = process_peripheral_events(&strict(), &events);
    assert!(c.err.is_none());
    assert_eq!(count_start_tags(&c.out, "register"), 0);
    assert_eq!(count_start_tags(&c.out, "enumeratedValue"), 0);
}

#[test]
fn fields_without_offset_are_emitted_without_packing() {
    let events = vec![
        start("module", vec![]),
        start("register", vec![a("id", "CTRL"), a("width", "8")]),
        start("bitfield", vec![a("id", "A"), a("width", "4"), a("resetval", "0xFF")]),
        end("bitfield"),
        end("register"),
        end("module"),
    ];
    let c = process_peripheral_events(&strict(), &events);
    assert!(c.err.is_none());
    // without an offset nothing is accumulated and nothing fails
    assert_eq!(text_after(&c.out, "resetValue").as_deref(), Some("0"));
    assert_eq!(text_after(&c.out, "bitWidth").as_deref(), Some("4"));
}

#[test]
fn misplaced_elements_draw_verbose_diagnostics() {
    let cfg = Args::new(true, 1, true, false, false, 0);
    let events = vec![start("register", vec![a("id", "CTRL")])];
    let c = process_peripheral_events(&cfg, &events);
    assert!(c.err.is_none());
    assert!(c
        .diags
        .iter()
        .any(|d| matches!(d, Diag::MisplacedElement { name, start: true } if name == "register")));
}

#[test]
fn unknown_attributes_draw_verbose_diagnostics() {
    let cfg = Args::new(true, 1, true, false, false, 0);
    let events = vec![
        start("module", vec![]),
        start("register", vec![a("id", "CTRL"), a("colour", "red")]),
        end("register"),
        end("module"),
    ];
    let c = process_peripheral_events(&cfg, &events);
    assert!(c.err.is_none());
    assert!(c.diags.iter().any(
        |d| matches!(d, Diag::UnknownAttr { element, attr } if element == "register" && attr == "colour")
    ));
}

#[test]
fn lazy_groups_open_once() {
    let events = vec![
        start("module", vec![]),
        start("register", vec![a("id", "A")]),
        end("register"),
        start("register", vec![a("id", "B")]),
        end("register"),
        end("module"),
    ];
    let c = process_peripheral_events(&strict(), &events);
    assert_eq!(count_start_tags(&c.out, "registers"), 1);
    assert_eq!(count_start_tags(&c.out, "register"), 2);
}
