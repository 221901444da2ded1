//! The device transducer: a state machine over `device` → `cpu` →
//! `property` / `instance` events. It discovers the endianness, filters by
//! the requested CPU index, and for each accepted instance asks its caller
//! to resolve the referenced peripheral document, whose events are then
//! spliced in through the peripheral transducer.
use vstd::prelude::*;
use vstd::string::*;
use crate::Args;
use crate::diag::{push_diag, Diag, DiagV, Error, ErrorV};
use crate::events::{
    attr_lookup, emit_comment, emit_end, emit_start, emit_tag, find_attr, push_unknown_attr_diags,
    tag_out, unknown_attr_diags, Attr, AttrV, ElemEvent, ElemKind, EventV, OutEvent, OutV,
};
use crate::peripheral::{init_pstate, periph_run, run_events, PeriphState, PStateV};
use crate::text::{replace_all, replace_spec, starts_with, starts_with_spec, str_eq};

verus! {

/// The per-document context of a device conversion.
pub struct DeviceState {
    /// The device element's attributes, kept for the synthesized metadata.
    pub device_attrs: Vec<Attr>,
    /// Whether a `cpu` element is open.
    pub in_cpu: bool,
    /// The running CPU index; it advances on each `cpu` close.
    pub cpu_counter: u64,
    /// The discovered endianness; the first match wins. The scan is
    /// confined to the selected CPU's scope, while the metadata block that
    /// reads it is emitted at that scope's opening — before any of its
    /// properties — so callers must accept the default `other` there.
    pub endianness: Option<String>,
    /// Whether the peripherals group tag has been opened.
    pub peripherals_open: bool,
    /// Whether an accepted instance awaits its spliced peripheral document.
    pub pending: bool,
}

/// The mathematical value of a [`DeviceState`].
pub struct DStateV {
    pub device_attrs: Seq<AttrV>,
    pub in_cpu: bool,
    pub cpu_counter: u64,
    pub endianness: Option<Seq<char>>,
    pub peripherals_open: bool,
    pub pending: bool,
}

impl DeepView for DeviceState {
    type V = DStateV;

    open spec fn deep_view(&self) -> DStateV {
        DStateV {
            device_attrs: self.device_attrs.deep_view(),
            in_cpu: self.in_cpu,
            cpu_counter: self.cpu_counter,
            endianness: self.endianness.deep_view(),
            peripherals_open: self.peripherals_open,
            pending: self.pending,
        }
    }
}

/// The state before any event.
pub open spec fn init_dstate() -> DStateV {
    DStateV {
        device_attrs: Seq::empty(),
        in_cpu: false,
        cpu_counter: 0,
        endianness: None,
        peripherals_open: true,
        pending: false,
    }
}

/// What one device step yields: the output events, the diagnostics, the
/// next state, and the reference of a peripheral document the caller must
/// resolve and splice before the next step, if any. No device event is
/// fatal by itself.
pub struct DStep {
    pub out: Seq<OutV>,
    pub diags: Seq<DiagV>,
    pub st: DStateV,
    pub req: Option<Seq<char>>,
}

/// What the endianness scan reads from one `property` element: its value
/// when the type says string field and the id says endianness.
pub open spec fn endianness_of(sanitize: bool, attrs: Seq<AttrV>) -> Option<Seq<char>> {
    let f_type = attr_lookup(attrs, sanitize, "Type"@);
    let f_value = attr_lookup(attrs, sanitize, "Value"@);
    let f_id = attr_lookup(attrs, sanitize, "id"@);
    if f_type == Some("stringfield"@) && f_id == Some("Endianness"@) && f_value is Some {
        f_value
    } else {
        None
    }
}

/// The synthesized device metadata, emitted once for the selected CPU:
/// name, version and description from the device element, then a CPU
/// descriptor with the instruction-set name, the discovered endianness and
/// fixed defaults, then the fixed address-unit defaults.
pub open spec fn gen_device_out(
    cfg: Args,
    device_attrs: Seq<AttrV>,
    cpu_attrs: Seq<AttrV>,
    endianness: Option<Seq<char>>,
) -> Seq<OutV> {
    if cfg.no_device_info {
        Seq::empty()
    } else {
        let f_id = attr_lookup(device_attrs, false, "id"@);
        let f_desc = attr_lookup(device_attrs, false, "description"@);
        let f_hw = attr_lookup(cpu_attrs, false, "HW_revision"@);
        let f_isa = match attr_lookup(cpu_attrs, false, "isa"@) {
            Some(v) => Some(
                if cfg.sanitize {
                    replace_spec(v, "Cortex_"@, "C"@)
                } else {
                    v
                },
            ),
            None => None,
        };
        let name = match f_id {
            Some(v) => v,
            None => "[unknown CPU]"@,
        };
        let version = match f_hw {
            Some(v) => v,
            None => "0.0"@,
        };
        let desc = match f_desc {
            Some(v) => v,
            None => ""@,
        };
        let isa = match f_isa {
            Some(v) => v,
            None => "other"@,
        };
        let endian = match endianness {
            Some(v) => v,
            None => "other"@,
        };
        gen_device_head(name, version, desc) + gen_device_cpu(isa, version, endian)
            + gen_device_tail()
    }
}

/// The device's own metadata elements.
pub open spec fn gen_device_head(name: Seq<char>, version: Seq<char>, desc: Seq<char>) -> Seq<
    OutV,
> {
    tag_out("name"@, name) + tag_out("version"@, version) + tag_out("description"@, desc)
}

/// The nested CPU descriptor, with its fixed defaults.
pub open spec fn gen_device_cpu(isa: Seq<char>, version: Seq<char>, endian: Seq<char>) -> Seq<
    OutV,
> {
    seq![OutV::StartTag("cpu"@)] + tag_out("name"@, isa) + tag_out("revision"@, version) + tag_out(
        "endian"@,
        endian,
    ) + tag_out("mpuPresent"@, "true"@) + tag_out("fpuPresent"@, "true"@) + tag_out(
        "nvicPrioBits"@,
        "3"@,
    ) + tag_out("vendorSystickConfig"@, "false"@) + seq![OutV::EndTag]
}

/// The fixed address-unit defaults that close the metadata block.
pub open spec fn gen_device_tail() -> Seq<OutV> {
    tag_out("addressUnitBits"@, "8"@) + tag_out("width"@, "32"@) + tag_out("size"@, "32"@)
        + tag_out("access"@, "read-write"@) + tag_out("resetValue"@, "0x00000000"@) + tag_out(
        "resetMask"@,
        "0xFFFFFFFF"@,
    )
}

/// A device step that only reports a diagnostic.
pub open spec fn device_diag_step(st: DStateV, diags: Seq<DiagV>) -> DStep {
    DStep { out: Seq::empty(), diags, st, req: None }
}

/// The instance id as the configuration reads it: hyphens become
/// underscores under sanitize.
pub open spec fn instance_id(cfg: Args, attrs: Seq<AttrV>) -> Option<Seq<char>> {
    match attr_lookup(attrs, cfg.sanitize, "id"@) {
        Some(v) => Some(
            if cfg.sanitize {
                replace_spec(v, "-"@, "_"@)
            } else {
                v
            },
        ),
        None => None,
    }
}

/// Opening an `instance` inside the selected CPU scope: skip it without an
/// id; skip it with a warning when its reference is missing or not rooted
/// under the external module path; otherwise emit the peripheral header and
/// ask the caller to resolve the reference.
pub open spec fn instance_open_step(cfg: Args, st: DStateV, attrs: Seq<AttrV>) -> DStep {
    let d0 = unknown_attr_diags(cfg.verbose > 0, ElemKind::Instance, attrs);
    let f_baseaddr = attr_lookup(attrs, cfg.sanitize, "baseaddr"@);
    let f_size = attr_lookup(attrs, cfg.sanitize, "size"@);
    let f_id = instance_id(cfg, attrs);
    let f_href = attr_lookup(attrs, cfg.sanitize, "href"@);
    let skip = !(f_href is Some && starts_with_spec(f_href.unwrap(), "../Modules/"@));
    match f_id {
        None => DStep { out: Seq::empty(), diags: d0, st, req: None },
        Some(id) => {
            if skip {
                DStep {
                    out: Seq::empty(),
                    diags: d0 + seq![DiagV::InstanceSkipped { id }],
                    st,
                    req: None,
                }
            } else {
                let o0 = (if !st.peripherals_open {
                    seq![OutV::StartTag("peripherals"@)]
                } else {
                    Seq::empty()
                }) + seq![OutV::StartTag("peripheral"@)] + tag_out("name"@, id);
                let o1 = o0 + (match f_baseaddr {
                    Some(v) => tag_out("baseAddress"@, v),
                    None => Seq::empty(),
                });
                let o2 = o1 + (match f_size {
                    Some(v) => seq![OutV::StartTag("addressBlock"@)] + tag_out("offset"@, "0"@)
                        + tag_out("size"@, v) + tag_out("usage"@, "registers"@) + seq![OutV::EndTag],
                    None => Seq::empty(),
                });
                let d1 = d0 + (if f_size is None && !cfg.silent {
                    seq![DiagV::InstanceWithoutSize { id }]
                } else {
                    Seq::empty()
                });
                DStep {
                    out: o2,
                    diags: d1,
                    st: DStateV { peripherals_open: true, pending: true, ..st },
                    req: Some(f_href.unwrap()),
                }
            }
        },
    }
}

/// One step of the device transducer.
pub open spec fn device_step(cfg: Args, st: DStateV, ev: EventV) -> DStep {
    let verbose = cfg.verbose > 0;
    match ev {
        EventV::Start { name, attrs } => {
            if name == "device"@ {
                DStep {
                    out: seq![
                        OutV::StartTag("device"@),
                        OutV::Comment("Created by tixml2svd"@),
                    ],
                    diags: Seq::empty(),
                    st: DStateV { device_attrs: attrs, ..st },
                    req: None,
                }
            } else if name == "cpu"@ {
                if st.cpu_counter == cfg.cpunum as u64 {
                    DStep {
                        out: gen_device_out(cfg, st.device_attrs, attrs, st.endianness),
                        diags: Seq::empty(),
                        st: DStateV { in_cpu: true, peripherals_open: false, ..st },
                        req: None,
                    }
                } else {
                    DStep {
                        out: Seq::empty(),
                        diags: Seq::empty(),
                        st: DStateV { in_cpu: true, ..st },
                        req: None,
                    }
                }
            } else if name == "property"@ {
                if st.in_cpu && st.cpu_counter == cfg.cpunum as u64 {
                    let e2 = match st.endianness {
                        Some(e) => Some(e),
                        None => endianness_of(cfg.sanitize, attrs),
                    };
                    DStep {
                        out: Seq::empty(),
                        diags: Seq::empty(),
                        st: DStateV { endianness: e2, ..st },
                        req: None,
                    }
                } else {
                    DStep { out: Seq::empty(), diags: Seq::empty(), st, req: None }
                }
            } else if name == "instance"@ {
                if !st.in_cpu || st.cpu_counter != cfg.cpunum as u64 {
                    device_diag_step(
                        st,
                        if verbose {
                            seq![DiagV::InstanceOutsideCpu { index: st.cpu_counter }]
                        } else {
                            Seq::empty()
                        },
                    )
                } else {
                    instance_open_step(cfg, st, attrs)
                }
            } else {
                device_diag_step(
                    st,
                    if verbose {
                        seq![DiagV::UnknownElement { name, start: true }]
                    } else {
                        Seq::empty()
                    },
                )
            }
        },
        EventV::End { name } => {
            if name == "device"@ {
                DStep { out: seq![OutV::EndTag], diags: Seq::empty(), st, req: None }
            } else if name == "cpu"@ {
                let counter2: u64 = if st.cpu_counter < u64::MAX {
                    (st.cpu_counter + 1) as u64
                } else {
                    st.cpu_counter
                };
                if st.cpu_counter == cfg.cpunum as u64 {
                    DStep {
                        out: if st.peripherals_open {
                            seq![OutV::EndTag]
                        } else {
                            Seq::empty()
                        },
                        diags: Seq::empty(),
                        st: DStateV {
                            in_cpu: false,
                            cpu_counter: counter2,
                            peripherals_open: true,
                            ..st
                        },
                        req: None,
                    }
                } else {
                    DStep {
                        out: Seq::empty(),
                        diags: Seq::empty(),
                        st: DStateV { in_cpu: false, cpu_counter: counter2, ..st },
                        req: None,
                    }
                }
            } else if name == "instance"@ {
                DStep { out: Seq::empty(), diags: Seq::empty(), st, req: None }
            } else {
                device_diag_step(
                    st,
                    if verbose {
                        seq![DiagV::UnknownElement { name, start: false }]
                    } else {
                        Seq::empty()
                    },
                )
            }
        },
    }
}

/// What the caller must do after a step: nothing, or resolve the named
/// peripheral document and splice its events in.
pub enum DeviceAction {
    Continue,
    NeedPeripheral(String),
}

/// The deep view of a device action: the requested reference, if any.
pub open spec fn action_dv(a: DeviceAction) -> Option<Seq<char>> {
    match a {
        DeviceAction::Continue => None,
        DeviceAction::NeedPeripheral(href) => Some(href@),
    }
}

fn clone_attrs(attrs: &Vec<Attr>) -> (r: Vec<Attr>)
    ensures
        r.deep_view() == attrs.deep_view(),
{
    let mut r: Vec<Attr> = Vec::new();
    let n = attrs.len();
    let mut i: usize = 0;
    proof {
        assert(r.deep_view() =~= attrs.deep_view().take(0));
    }
    while i < n
        invariant
            0 <= i <= n,
            n == attrs.len(),
            attrs.deep_view().len() == n,
            forall|j: int| 0 <= j < n ==> attrs.deep_view()[j] == attrs[j].deep_view(),
            r.deep_view() == attrs.deep_view().take(i as int),
        decreases n - i,
    {
        let ghost pre = r.deep_view();
        let a = &attrs[i];
        r.push(Attr { name: a.name.clone(), value: a.value.clone() });
        proof {
            assert(r.deep_view() =~= pre.push(attrs.deep_view()[i as int]));
            assert(attrs.deep_view().take(i + 1) =~= pre.push(attrs.deep_view()[i as int]));
        }
        i = i + 1;
    }
    proof {
        assert(attrs.deep_view().take(n as int) =~= attrs.deep_view());
    }
    r
}

/// Emit the synthesized device metadata for the selected CPU.
#[verifier::rlimit(100)]
#[verifier::spinoff_prover]
fn gen_device(
    cfg: &Args,
    device_attrs: &Vec<Attr>,
    cpu_attrs: &Vec<Attr>,
    endianness: &Option<String>,
    out: &mut Vec<OutEvent>,
)
    ensures
        final(out).deep_view() == old(out).deep_view() + gen_device_out(
            *cfg,
            device_attrs.deep_view(),
            cpu_attrs.deep_view(),
            endianness.deep_view(),
        ),
{
    let ghost out0 = out.deep_view();
    if cfg.no_device_info {
        proof {
            assert(out.deep_view() =~= out0 + Seq::<OutV>::empty());
        }
        return ;
    }
    let f_id = find_attr(device_attrs, false, "id");
    let f_desc = find_attr(device_attrs, false, "description");
    let f_hw = find_attr(cpu_attrs, false, "HW_revision");
    let f_isa_raw = find_attr(cpu_attrs, false, "isa");
    proof {
        reveal_strlit("Cortex_");
        assert(("Cortex_"@).len() == 7);
    }
    let f_isa: Option<String> = match &f_isa_raw {
        Some(v) => Some(
            if cfg.sanitize {
                replace_all(v.as_str(), "Cortex_", "C")
            } else {
                v.clone()
            },
        ),
        None => None,
    };
    let ghost g_name = match f_id.deep_view() {
        Some(v) => v,
        None => "[unknown CPU]"@,
    };
    let ghost g_version = match f_hw.deep_view() {
        Some(v) => v,
        None => "0.0"@,
    };
    let ghost g_desc = match f_desc.deep_view() {
        Some(v) => v,
        None => ""@,
    };
    let ghost g_isa = match f_isa.deep_view() {
        Some(v) => v,
        None => "other"@,
    };
    let ghost g_endian = match endianness.deep_view() {
        Some(v) => v,
        None => "other"@,
    };
    match &f_id {
        Some(v) => emit_tag(out, "name", v.as_str()),
        None => emit_tag(out, "name", "[unknown CPU]"),
    }
    match &f_hw {
        Some(v) => emit_tag(out, "version", v.as_str()),
        None => emit_tag(out, "version", "0.0"),
    }
    match &f_desc {
        Some(v) => emit_tag(out, "description", v.as_str()),
        None => emit_tag(out, "description", ""),
    }
    proof {
        assert(out.deep_view() =~= out0 + gen_device_head(g_name, g_version, g_desc));
    }
    let ghost out1 = out.deep_view();
    emit_start(out, "cpu");
    match &f_isa {
        Some(v) => emit_tag(out, "name", v.as_str()),
        None => emit_tag(out, "name", "other"),
    }
    match &f_hw {
        Some(v) => emit_tag(out, "revision", v.as_str()),
        None => emit_tag(out, "revision", "0.0"),
    }
    match endianness {
        Some(v) => emit_tag(out, "endian", v.as_str()),
        None => emit_tag(out, "endian", "other"),
    }
    emit_tag(out, "mpuPresent", "true");
    emit_tag(out, "fpuPresent", "true");
    emit_tag(out, "nvicPrioBits", "3");
    emit_tag(out, "vendorSystickConfig", "false");
    emit_end(out);
    proof {
        assert(out.deep_view() =~= out1 + gen_device_cpu(g_isa, g_version, g_endian));
    }
    let ghost out2 = out.deep_view();
    emit_tag(out, "addressUnitBits", "8");
    emit_tag(out, "width", "32");
    emit_tag(out, "size", "32");
    emit_tag(out, "access", "read-write");
    emit_tag(out, "resetValue", "0x00000000");
    emit_tag(out, "resetMask", "0xFFFFFFFF");
    proof {
        assert(out.deep_view() =~= out2 + gen_device_tail());
        assert(out.deep_view() =~= out0 + gen_device_out(
            *cfg,
            device_attrs.deep_view(),
            cpu_attrs.deep_view(),
            endianness.deep_view(),
        ));
    }
}

/// Read the endianness from a `property` element, when it carries one.
fn check_endianness(cfg: &Args, attrs: &Vec<Attr>) -> (r: Option<String>)
    ensures
        r.deep_view() == endianness_of(cfg.sanitize, attrs.deep_view()),
{
    let f_type = find_attr(attrs, cfg.sanitize, "Type");
    let f_value = find_attr(attrs, cfg.sanitize, "Value");
    let f_id = find_attr(attrs, cfg.sanitize, "id");
    let type_ok = match &f_type {
        Some(t) => str_eq(t, "stringfield"),
        None => false,
    };
    let id_ok = match &f_id {
        Some(t) => str_eq(t, "Endianness"),
        None => false,
    };
    if type_ok && id_ok {
        f_value
    } else {
        None
    }
}

/// Process an accepted `instance`: emit the peripheral header and ask for
/// the referenced document.
#[verifier::rlimit(100)]
#[verifier::spinoff_prover]
fn instance_open(
    cfg: &Args,
    st: &mut DeviceState,
    attrs: &Vec<Attr>,
    out: &mut Vec<OutEvent>,
    diags: &mut Vec<Diag>,
) -> (a: DeviceAction)
    ensures
        ({
            let sp = instance_open_step(*cfg, old(st).deep_view(), attrs.deep_view());
            final(st).deep_view() == sp.st && final(out).deep_view() == old(out).deep_view()
                + sp.out && final(diags).deep_view() == old(diags).deep_view() + sp.diags
                && action_dv(a) == sp.req
        }),
{
    let ghost st0 = st.deep_view();
    let ghost av = attrs.deep_view();
    let ghost out0 = out.deep_view();
    let ghost dg0 = diags.deep_view();
    push_unknown_attr_diags(cfg.verbose > 0, ElemKind::Instance, attrs, diags);
    let f_baseaddr = find_attr(attrs, cfg.sanitize, "baseaddr");
    let f_size = find_attr(attrs, cfg.sanitize, "size");
    let f_id_raw = find_attr(attrs, cfg.sanitize, "id");
    let f_href = find_attr(attrs, cfg.sanitize, "href");
    proof {
        reveal_strlit("-");
        assert(("-"@).len() == 1);
    }
    let f_id: Option<String> = match &f_id_raw {
        Some(v) => Some(
            if cfg.sanitize {
                replace_all(v.as_str(), "-", "_")
            } else {
                v.clone()
            },
        ),
        None => None,
    };
    let accept = match &f_href {
        Some(h) => starts_with(h.as_str(), "../Modules/"),
        None => false,
    };
    match f_id {
        None => {
            proof {
                assert(out.deep_view() =~= out0 + instance_open_step(*cfg, st0, av).out);
            }
            DeviceAction::Continue
        },
        Some(id) => {
            if !accept {
                push_diag(diags, Diag::InstanceSkipped { id });
                proof {
                    assert(out.deep_view() =~= out0 + instance_open_step(*cfg, st0, av).out);
                    assert(diags.deep_view() =~= dg0 + instance_open_step(*cfg, st0, av).diags);
                }
                DeviceAction::Continue
            } else {
                if !st.peripherals_open {
                    emit_start(out, "peripherals");
                    st.peripherals_open = true;
                }
                emit_start(out, "peripheral");
                emit_tag(out, "name", id.as_str());
                match &f_baseaddr {
                    Some(v) => emit_tag(out, "baseAddress", v.as_str()),
                    None => {},
                }
                match &f_size {
                    Some(v) => {
                        emit_start(out, "addressBlock");
                        emit_tag(out, "offset", "0");
                        emit_tag(out, "size", v.as_str());
                        emit_tag(out, "usage", "registers");
                        emit_end(out);
                    },
                    None => {
                        if !cfg.silent {
                            push_diag(diags, Diag::InstanceWithoutSize { id: id.clone() });
                        }
                    },
                }
                st.pending = true;
                let href = match f_href {
                    Some(h) => h,
                    None => String::new(),
                };
                proof {
                    let sp = instance_open_step(*cfg, st0, av);
                    assert(out.deep_view() =~= out0 + sp.out);
                    assert(diags.deep_view() =~= dg0 + sp.diags);
                    assert(st.deep_view() == sp.st);
                }
                DeviceAction::NeedPeripheral(href)
            }
        },
    }
}

impl DeviceState {
    /// The state in which a device conversion begins.
    pub fn new() -> (s: DeviceState)
        ensures
            s.deep_view() == init_dstate(),
    {
        let s = DeviceState {
            device_attrs: Vec::new(),
            in_cpu: false,
            cpu_counter: 0,
            endianness: None,
            peripherals_open: true,
            pending: false,
        };
        proof {
            assert(s.deep_view().device_attrs =~= Seq::<AttrV>::empty());
        }
        s
    }

    /// Whether an accepted instance awaits its spliced peripheral document.
    pub fn pending(&self) -> (b: bool)
        ensures
            b == self.deep_view().pending,
    {
        self.pending
    }

    /// Feed one element event through the device transducer. When the
    /// returned action names a peripheral document, the caller must resolve
    /// it and call [`DeviceState::splice_peripheral`] before the next step.
    #[verifier::rlimit(100)]
    #[verifier::spinoff_prover]
    pub fn step(
        &mut self,
        cfg: &Args,
        ev: &ElemEvent,
        out: &mut Vec<OutEvent>,
        diags: &mut Vec<Diag>,
    ) -> (a: DeviceAction)
        requires
            !old(self).deep_view().pending,
        ensures
            ({
                let sp = device_step(*cfg, old(self).deep_view(), ev.deep_view());
                final(self).deep_view() == sp.st && final(out).deep_view() == old(out).deep_view()
                    + sp.out && final(diags).deep_view() == old(diags).deep_view() + sp.diags
                    && action_dv(a) == sp.req && (sp.req is None ==> !sp.st.pending)
            }),
    {
        let ghost st0 = self.deep_view();
        let ghost out0 = out.deep_view();
        let ghost dg0 = diags.deep_view();
        let verbose = cfg.verbose > 0;
        match ev {
            ElemEvent::Start { name, attrs } => {
                if str_eq(name, "device") {
                    emit_start(out, "device");
                    emit_comment(out, "Created by tixml2svd");
                    self.device_attrs = clone_attrs(attrs);
                    proof {
                        assert(out.deep_view() =~= out0 + device_step(
                            *cfg,
                            st0,
                            ev.deep_view(),
                        ).out);
                    }
                    DeviceAction::Continue
                } else if str_eq(name, "cpu") {
                    self.in_cpu = true;
                    if self.cpu_counter == cfg.cpunum as u64 {
                        gen_device(cfg, &self.device_attrs, attrs, &self.endianness, out);
                        self.peripherals_open = false;
                    }
                    DeviceAction::Continue
                } else if str_eq(name, "property") {
                    if self.in_cpu && self.cpu_counter == cfg.cpunum as u64 {
                        if self.endianness.is_none() {
                            self.endianness = check_endianness(cfg, attrs);
                        }
                    }
                    DeviceAction::Continue
                } else if str_eq(name, "instance") {
                    if !self.in_cpu || self.cpu_counter != cfg.cpunum as u64 {
                        if verbose {
                            push_diag(
                                diags,
                                Diag::InstanceOutsideCpu { index: self.cpu_counter },
                            );
                        }
                        DeviceAction::Continue
                    } else {
                        instance_open(cfg, self, attrs, out, diags)
                    }
                } else {
                    if verbose {
                        push_diag(diags, Diag::UnknownElement { name: name.clone(), start: true });
                    }
                    DeviceAction::Continue
                }
            },
            ElemEvent::End { name } => {
                if str_eq(name, "device") {
                    emit_end(out);
                    DeviceAction::Continue
                } else if str_eq(name, "cpu") {
                    if self.cpu_counter == cfg.cpunum as u64 {
                        if self.peripherals_open {
                            emit_end(out);
                        }
                        self.peripherals_open = true;
                    }
                    self.in_cpu = false;
                    if self.cpu_counter < u64::MAX {
                        self.cpu_counter = self.cpu_counter + 1;
                    }
                    DeviceAction::Continue
                } else if str_eq(name, "instance") {
                    DeviceAction::Continue
                } else {
                    if verbose {
                        push_diag(diags, Diag::UnknownElement { name: name.clone(), start: false });
                    }
                    DeviceAction::Continue
                }
            },
        }
    }

    /// Splice the resolved peripheral document into the open peripheral
    /// element: run the peripheral transducer over its events, then close
    /// the element. A fatal error of the nested conversion aborts the whole
    /// conversion.
    pub fn splice_peripheral(
        &mut self,
        cfg: &Args,
        events: &Vec<ElemEvent>,
        out: &mut Vec<OutEvent>,
        diags: &mut Vec<Diag>,
    ) -> (r: Result<(), Error>)
        requires
            old(self).deep_view().pending,
        ensures
            ({
                let pr = periph_run(*cfg, init_pstate(), events.deep_view());
                final(diags).deep_view() == old(diags).deep_view() + pr.diags && (match r {
                    Ok(_) => pr.res is Ok && final(self).deep_view() == (DStateV {
                        pending: false,
                        ..old(self).deep_view()
                    }) && final(out).deep_view() == old(out).deep_view() + pr.out + seq![
                        OutV::EndTag,
                    ],
                    Err(e) => pr.res == Err::<PStateV, ErrorV>(e.deep_view())
                        && final(out).deep_view() == old(out).deep_view() + pr.out,
                })
            }),
    {
        let st = PeriphState::new();
        match run_events(cfg, st, events, out, diags) {
            Ok(_) => {
                emit_end(out);
                self.pending = false;
                Ok(())
            },
            Err(e) => Err(e),
        }
    }
}

/// CPU filtering: an `instance` event outside the selected CPU scope emits
/// no output, changes no state, and asks for nothing; at most a diagnostic
/// is reported.
pub proof fn lemma_instance_filtered(cfg: Args, st: DStateV, attrs: Seq<AttrV>)
    requires
        !st.in_cpu || st.cpu_counter != cfg.cpunum as u64,
    ensures
        ({
            let sp = device_step(cfg, st, EventV::Start { name: "instance"@, attrs });
            sp.out == Seq::<OutV>::empty() && sp.st == st && sp.req is None
        }),
{
    proof_strlit_distinct();
}

/// CPU filtering: opening a `cpu` other than the selected one emits
/// nothing; only the selected CPU's opening emits the device metadata.
pub proof fn lemma_cpu_filtered(cfg: Args, st: DStateV, attrs: Seq<AttrV>)
    requires
        st.cpu_counter != cfg.cpunum as u64,
    ensures
        ({
            let sp = device_step(cfg, st, EventV::Start { name: "cpu"@, attrs });
            sp.out == Seq::<OutV>::empty() && sp.req is None && sp.st == (DStateV {
                in_cpu: true,
                ..st
            })
        }),
{
    proof_strlit_distinct();
}

/// The element names of the device vocabulary are pairwise distinct.
proof fn proof_strlit_distinct()
    ensures
        "instance"@ != "device"@ && "instance"@ != "cpu"@ && "instance"@ != "property"@,
        "cpu"@ != "device"@,
{
    reveal_strlit("instance");
    reveal_strlit("device");
    reveal_strlit("cpu");
    reveal_strlit("property");
    assert(("instance"@).len() == 8);
    assert(("device"@).len() == 6);
    assert(("cpu"@).len() == 3);
    assert(("property"@).len() == 8);
    assert(("instance"@)[0] == 'i');
    assert(("property"@)[0] == 'p');
}

} // verus!
