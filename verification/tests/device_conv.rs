use tixml2svd::device::{DeviceAction, DeviceState};
use tixml2svd::diag::{Diag, Error};
use tixml2svd::events::{Attr, ElemEvent, OutEvent};
use tixml2svd::Args;

fn a(n: &str, v: &str) -> Attr {
    Attr::new(n.to_string(), v.to_string())
}

fn start(n: &str, attrs: Vec<Attr>) -> ElemEvent {
    ElemEvent::start(n.to_string(), attrs)
}

fn end(n: &str) -> ElemEvent {
    ElemEvent::end(n.to_string())
}

fn text_after(out: &[OutEvent], tag: &str) -> Option<String> {
    let mut it = out.iter();
    while let Some(e) = it.next() {
        if let OutEvent::StartTag(n) = e {
            if n == tag {
                if let Some(OutEvent::Text(t)) = it.next() {
                    return Some(t.clone());
                }
                return None;
            }
        }
    }
    None
}

fn texts_of(out: &[OutEvent], tag: &str) -> Vec<String> {
    let mut r = Vec::new();
    let mut it = out.iter().peekable();
    while let Some(e) = it.next() {
        if let OutEvent::StartTag(n) = e {
            if n == tag {
                if let Some(OutEvent::Text(t)) = it.peek() {
                    r.push(t.clone());
                }
            }
        }
    }
    r
}

fn count_start_tags(out: &[OutEvent], tag: &str) -> usize {
    out.iter()
        .filter(|e| matches!(e, OutEvent::StartTag(n) if n == tag))
        .count()
}

/// Drive the device transducer over the events, answering every resolution
/// request with the given peripheral document.
fn run_device(
    cfg: &Args,
    events: &[ElemEvent],
    periph: &Vec<ElemEvent>,
) -> Result<(Vec<OutEvent>, Vec<Diag>), Error> {
    let mut st = DeviceState::new();
    let mut out = Vec::new();
    let mut diags = Vec::new();
    for ev in events {
        match st.step(cfg, ev, &mut out, &mut diags) {
            DeviceAction::Continue => {}
            DeviceAction::NeedPeripheral(_href) => {
                st.splice_peripheral(cfg, periph, &mut out, &mut diags)?;
            }
        }
    }
    Ok((out, diags))
}

fn two_cpu_doc() -> Vec<ElemEvent> {
    vec![
        start("device", vec![a("id", "MYCHIP"), a("description", "a chip")]),
        start("cpu", vec![a("HW_revision", "1.0"), a("isa", "Cortex_M4")]),
        start(
            "instance",
            vec![a("id", "DMA0"), a("href", "../Modules/dma0.xml"), a("baseaddr", "0x40000000"), a("size", "0x1000")],
        ),
        end("instance"),
        end("cpu"),
        start("cpu", vec![a("HW_revision", "2.0"), a("isa", "Cortex_M0")]),
        start(
            "instance",
            vec![a("id", "DMA1"), a("href", "../Modules/dma1.xml"), a("baseaddr", "0x50000000"), a("size", "0x2000")],
        ),
        end("instance"),
        end("cpu"),
        end("device"),
    ]
}

fn empty_module() -> Vec<ElemEvent> {
    vec![start("module", vec![]), end("module")]
}

#[test]
fn only_the_selected_cpu_is_translated() {
    let cfg = Args::new(true, 0, false, false, false, 1);
    let (out, _diags) = run_device(&cfg, &two_cpu_doc(), &empty_module()).unwrap();
    assert_eq!(count_start_tags(&out, "peripheral"), 1);
    assert_eq!(count_start_tags(&out, "peripherals"), 1);
    let names = texts_of(&out, "name");
    assert!(names.contains(&"DMA1".to_string()));
    assert!(!names.contains(&"DMA0".to_string()));
    assert_eq!(text_after(&out, "baseAddress").as_deref(), Some("0x50000000"));
}

#[test]
fn cpu_zero_is_the_default_selection() {
    let cfg = Args::new(true, 0, false, false, false, 0);
    let (out, _diags) = run_device(&cfg, &two_cpu_doc(), &empty_module()).unwrap();
    assert_eq!(count_start_tags(&out, "peripheral"), 1);
    let names = texts_of(&out, "name");
    assert!(names.contains(&"DMA0".to_string()));
    assert!(!names.contains(&"DMA1".to_string()));
}

#[test]
fn device_metadata_is_synthesized_for_the_selected_cpu() {
    let cfg = Args::new(true, 0, false, false, false, 0);
    let (out, _diags) = run_device(&cfg, &two_cpu_doc(), &empty_module()).unwrap();
    let names = texts_of(&out, "name");
    assert_eq!(names[0], "MYCHIP");
    assert_eq!(names[1], "Cortex_M4");
    assert_eq!(text_after(&out, "version").as_deref(), Some("1.0"));
    assert_eq!(text_after(&out, "description").as_deref(), Some("a chip"));
    assert_eq!(text_after(&out, "endian").as_deref(), Some("other"));
    assert_eq!(text_after(&out, "mpuPresent").as_deref(), Some("true"));
    assert_eq!(text_after(&out, "nvicPrioBits").as_deref(), Some("3"));
    assert_eq!(text_after(&out, "resetMask").as_deref(), Some("0xFFFFFFFF"));
}

#[test]
fn sanitize_normalizes_the_instruction_set_name() {
    let cfg = Args::new(true, 0, false, true, false, 0);
    let (out, _diags) = run_device(&cfg, &two_cpu_doc(), &empty_module()).unwrap();
    let names = texts_of(&out, "name");
    assert_eq!(names[1], "CM4");
}

#[test]
fn no_device_info_suppresses_the_metadata_block() {
    let cfg = Args::new(true, 0, false, false, true, 0);
    let (out, _diags) = run_device(&cfg, &two_cpu_doc(), &empty_module()).unwrap();
    assert_eq!(count_start_tags(&out, "cpu"), 0);
    assert_eq!(count_start_tags(&out, "version"), 0);
    // the peripherals are still translated
    assert_eq!(count_start_tags(&out, "peripheral"), 1);
}

#[test]
fn instance_without_matching_reference_is_skipped() {
    let cfg = Args::new(true, 0, false, false, false, 0);
    let events = vec![
        start("device", vec![]),
        start("cpu", vec![]),
        start("instance", vec![a("id", "X"), a("href", "p.xml")]),
        end("instance"),
        end("cpu"),
        end("device"),
    ];
    let (out, diags) = run_device(&cfg, &events, &empty_module()).unwrap();
    assert_eq!(count_start_tags(&out, "peripheral"), 0);
    assert!(diags
        .iter()
        .any(|d| matches!(d, Diag::InstanceSkipped { id } if id == "X")));
}

#[test]
fn instance_without_id_is_silently_skipped() {
    let cfg = Args::new(true, 0, false, false, false, 0);
    let events = vec![
        start("device", vec![]),
        start("cpu", vec![]),
        start("instance", vec![a("href", "../Modules/p.xml")]),
        end("instance"),
        end("cpu"),
        end("device"),
    ];
    let (out, _diags) = run_device(&cfg, &events, &empty_module()).unwrap();
    assert_eq!(count_start_tags(&out, "peripheral"), 0);
}

#[test]
fn instance_without_size_gets_no_address_block() {
    let cfg = Args::new(false, 0, false, false, false, 0);
    let events = vec![
        start("device", vec![]),
        start("cpu", vec![]),
        start("instance", vec![a("id", "P"), a("href", "../Modules/p.xml")]),
        end("instance"),
        end("cpu"),
        end("device"),
    ];
    let (out, diags) = run_device(&cfg, &events, &empty_module()).unwrap();
    assert_eq!(count_start_tags(&out, "peripheral"), 1);
    assert_eq!(count_start_tags(&out, "addressBlock"), 0);
    assert!(diags
        .iter()
        .any(|d| matches!(d, Diag::InstanceWithoutSize { id } if id == "P")));
}

#[test]
fn address_block_has_fixed_offset_and_usage() {
    let cfg = Args::new(true, 0, false, false, false, 0);
    let (out, _diags) = run_device(&cfg, &two_cpu_doc(), &empty_module()).unwrap();
    assert_eq!(text_after(&out, "addressBlock"), None);
    assert_eq!(text_after(&out, "offset").as_deref(), Some("0"));
    // the first size element is the metadata default; the block's follows
    assert_eq!(texts_of(&out, "size"), vec!["32", "0x1000"]);
    assert_eq!(text_after(&out, "usage").as_deref(), Some("registers"));
}

#[test]
fn instance_id_hyphens_become_underscores_under_sanitize() {
    let cfg = Args::new(true, 0, false, true, false, 0);
    let events = vec![
        start("device", vec![]),
        start("cpu", vec![]),
        start("instance", vec![a("id", "uart-0"), a("href", "../Modules/u.xml")]),
        end("instance"),
        end("cpu"),
        end("device"),
    ];
    let (out, _diags) = run_device(&cfg, &events, &empty_module()).unwrap();
    assert!(texts_of(&out, "name").contains(&"uart_0".to_string()));
}

#[test]
fn spliced_peripheral_registers_appear_inside_the_peripheral() {
    let cfg = Args::new(true, 0, false, false, false, 0);
    let periph = vec![
        start("module", vec![]),
        start("register", vec![a("id", "CTRL"), a("width", "8")]),
        end("register"),
        end("module"),
    ];
    let events = vec![
        start("device", vec![]),
        start("cpu", vec![]),
        start("instance", vec![a("id", "P"), a("href", "../Modules/p.xml"), a("size", "4")]),
        end("instance"),
        end("cpu"),
        end("device"),
    ];
    let (out, _diags) = run_device(&cfg, &events, &periph).unwrap();
    assert_eq!(count_start_tags(&out, "registers"), 1);
    assert_eq!(count_start_tags(&out, "register"), 1);
    assert!(texts_of(&out, "name").contains(&"CTRL".to_string()));
}

#[test]
fn fatal_error_in_spliced_peripheral_aborts_the_conversion() {
    let cfg = Args::new(true, 0, false, false, false, 0);
    let periph = vec![
        start("module", vec![]),
        start("register", vec![a("id", "CTRL"), a("width", "8")]),
        start("bitfield", vec![a("id", "A"), a("end", "6"), a("width", "4"), a("resetval", "1")]),
    ];
    let events = vec![
        start("device", vec![]),
        start("cpu", vec![]),
        start("instance", vec![a("id", "P"), a("href", "../Modules/p.xml"), a("size", "4")]),
    ];
    let r = run_device(&cfg, &events, &periph);
    assert!(matches!(r, Err(Error::FieldTooWide { .. })));
}

#[test]
fn instance_outside_selected_cpu_draws_verbose_diagnostic() {
    let cfg = Args::new(true, 1, false, false, false, 1);
    let events = vec![
        start("device", vec![]),
        start("instance", vec![a("id", "X"), a("href", "../Modules/x.xml")]),
        end("instance"),
        end("device"),
    ];
    let (out, diags) = run_device(&cfg, &events, &empty_module()).unwrap();
    assert_eq!(count_start_tags(&out, "peripheral"), 0);
    assert!(diags
        .iter()
        .any(|d| matches!(d, Diag::InstanceOutsideCpu { .. })));
}

#[test]
fn unknown_elements_draw_only_verbose_diagnostics() {
    let quiet = Args::new(true, 0, false, false, false, 0);
    let chatty = Args::new(true, 1, false, false, false, 0);
    let events = vec![
        start("device", vec![]),
        start("router", vec![]),
        end("router"),
        end("device"),
    ];
    let (_out, diags_quiet) = run_device(&quiet, &events, &empty_module()).unwrap();
    let (_out2, diags_chatty) = run_device(&chatty, &events, &empty_module()).unwrap();
    assert!(diags_quiet.is_empty());
    assert!(diags_chatty
        .iter()
        .any(|d| matches!(d, Diag::UnknownElement { name, .. } if name == "router")));
}

#[test]
fn device_wrapper_and_attribution_comment_open_the_output() {
    let cfg = Args::new(true, 0, false, false, false, 0);
    let (out, _diags) = run_device(&cfg, &two_cpu_doc(), &empty_module()).unwrap();
    assert!(matches!(&out[0], OutEvent::StartTag(n) if n == "device"));
    assert!(matches!(&out[1], OutEvent::Comment(_)));
    assert!(matches!(out.last(), Some(OutEvent::EndTag)));
}
