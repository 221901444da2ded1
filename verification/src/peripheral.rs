//! The peripheral transducer: a state machine over `module` → `register` →
//! `bitfield` → `bitenum` events that drives the bitfield packer and the
//! access-mode translator and produces the peripheral-scoped output subtree.
//!
//! The whole behaviour is given first as a mathematical step function
//! ([`periph_step`]); the executable transducer is proved to follow it
//! event by event.
use vstd::prelude::*;
use vstd::string::*;
use crate::Args;
use vstd::arithmetic::power2::pow2;
use crate::access::{access_out, write_access};
use crate::dedup::{contains_name, dedup_diags, dedup_name, unique_name};
use crate::diag::{push_diag, Diag, DiagV, Error, ErrorV};
use crate::events::{
    attr_lookup, emit_end, emit_start, emit_tag, find_attr, push_unknown_attr_diags, read_value,
    tag_out, unknown_attr_diags, Attr, AttrV, ElemEvent, ElemKind, EventV, OutEvent, OutV,
};
use crate::num::{
    dec_str, hex_str, parse_dec_spec, parse_reset_spec, parse_u64_dec, parse_u64_reset, u64_to_dec,
    u64_to_hex_upper,
};
use crate::pack::{apply_contribution, contribution, fits, reset_fits, shift_to_position};
use crate::state::{
    FieldScope, FieldScopeV, ModScope, ModScopeV, RegScope, RegScopeV,
};
use crate::text::str_eq;

verus! {

/// The whole state of one peripheral conversion: the open `module` scope,
/// if any.
pub struct PeriphState {
    pub module: Option<ModScope>,
}

/// The mathematical value of a [`PeriphState`].
pub struct PStateV {
    pub module: Option<ModScopeV>,
}

impl DeepView for PeriphState {
    type V = PStateV;

    open spec fn deep_view(&self) -> PStateV {
        PStateV { module: self.module.deep_view() }
    }
}

impl PStateV {
    /// Any declared register width fits the 64-bit accumulator.
    pub open spec fn wf(self) -> bool {
        match self.module {
            Some(m) => m.wf(),
            None => true,
        }
    }
}

/// The state before any event: no scope open.
pub open spec fn init_pstate() -> PStateV {
    PStateV { module: None }
}

/// What one step yields: the output events emitted, the diagnostics
/// reported, and either the next state or a fatal error.
pub struct PStep {
    pub out: Seq<OutV>,
    pub diags: Seq<DiagV>,
    pub res: Result<PStateV, ErrorV>,
}

/// The deep view of an executable step result.
pub open spec fn res_dv(r: Result<PeriphState, Error>) -> Result<PStateV, ErrorV> {
    match r {
        Ok(s) => Ok(s.deep_view()),
        Err(e) => Err(e.deep_view()),
    }
}

/// A step ignored with a diagnostic: an element name outside the vocabulary,
/// or a known element outside its place in the grammar.
pub open spec fn ignored_step(
    st: PStateV,
    verbose: bool,
    misplaced: bool,
    name: Seq<char>,
    start: bool,
) -> PStep {
    PStep {
        out: Seq::empty(),
        diags: if verbose {
            if misplaced {
                seq![DiagV::MisplacedElement { name, start }]
            } else {
                seq![DiagV::UnknownElement { name, start }]
            }
        } else {
            Seq::empty()
        },
        res: Ok(st),
    }
}

/// What one `module` attribute contributes, in attribute order.
pub open spec fn module_attr_out(cfg: Args, name: Seq<char>, v: Seq<char>) -> (Seq<OutV>, Seq<
    DiagV,
>) {
    if name == "HW_revision"@ || name == "XML_version"@ || name == "noNamespaceSchemaLocation"@
        || name == "token"@ {
        (Seq::empty(), Seq::empty())
    } else if name == "id"@ {
        (
            if cfg.peripheral_only {
                tag_out("name"@, v)
            } else {
                Seq::empty()
            },
            Seq::empty(),
        )
    } else if name == "value"@ {
        (
            if cfg.peripheral_only {
                tag_out("value"@, v)
            } else {
                Seq::empty()
            },
            Seq::empty(),
        )
    } else if name == "description"@ {
        (tag_out("description"@, v), Seq::empty())
    } else {
        (
            Seq::empty(),
            if cfg.verbose > 0 {
                seq![DiagV::UnknownAttr { element: "module"@, attr: name }]
            } else {
                Seq::empty()
            },
        )
    }
}

/// All `module` attributes, visited in order, each emitting immediately.
pub open spec fn module_attrs_out(cfg: Args, attrs: Seq<AttrV>) -> (Seq<OutV>, Seq<DiagV>)
    decreases attrs.len(),
{
    if attrs.len() == 0 {
        (Seq::empty(), Seq::empty())
    } else {
        let rest = module_attrs_out(cfg, attrs.drop_last());
        let a = attrs.last();
        let one = module_attr_out(cfg, a.name, read_value(cfg.sanitize, a.value));
        (rest.0 + one.0, rest.1 + one.1)
    }
}

/// Opening a `module`: enter the module scope; open the target peripheral
/// wrapper only in the standalone peripheral configuration; emit what the
/// attributes say.
pub open spec fn module_open_step(cfg: Args, attrs: Seq<AttrV>) -> PStep {
    let body = module_attrs_out(cfg, attrs);
    PStep {
        out: (if cfg.peripheral_only {
            seq![OutV::StartTag("peripheral"@)]
        } else {
            Seq::empty()
        }) + body.0,
        diags: body.1,
        res: Ok(
            PStateV {
                module: Some(
                    ModScopeV {
                        registers_open: false,
                        used_regs: if cfg.sanitize {
                            Some(Seq::empty())
                        } else {
                            None
                        },
                        reg: None,
                    },
                ),
            },
        ),
    }
}

/// Closing a `module`: close the registers group if it was opened, and the
/// peripheral wrapper in the standalone configuration.
pub open spec fn module_close_step(cfg: Args, m: ModScopeV) -> PStep {
    PStep {
        out: (if m.registers_open {
            seq![OutV::EndTag]
        } else {
            Seq::empty()
        }) + (if cfg.peripheral_only {
            seq![OutV::EndTag]
        } else {
            Seq::empty()
        }),
        diags: Seq::empty(),
        res: Ok(PStateV { module: None }),
    }
}

/// The reset-value text a register emits: uppercase hexadecimal with a `0x`
/// prefix when any contribution was accumulated, the literal `0` otherwise.
pub open spec fn reset_text(accum: Option<u64>) -> Seq<char> {
    match accum {
        Some(v) => "0x"@ + hex_str(v as nat),
        None => "0"@,
    }
}

/// Closing a `register`: close the fields group if it was opened, emit the
/// accumulated reset value, close the register element.
pub open spec fn register_close_step(cfg: Args, m: ModScopeV, r: RegScopeV) -> PStep {
    PStep {
        out: (if r.fields_open {
            seq![OutV::EndTag]
        } else {
            Seq::empty()
        }) + tag_out("resetValue"@, reset_text(r.accum)) + seq![OutV::EndTag],
        diags: Seq::empty(),
        res: Ok(PStateV { module: Some(ModScopeV { reg: None, ..m }) }),
    }
}

/// Closing a `bitfield`: close the enumerated-values group if it was opened,
/// close the field element.
pub open spec fn bitfield_close_step(m: ModScopeV, r: RegScopeV, f: FieldScopeV) -> PStep {
    PStep {
        out: (if f.enums_open {
            seq![OutV::EndTag]
        } else {
            Seq::empty()
        }) + seq![OutV::EndTag],
        diags: Seq::empty(),
        res: Ok(
            PStateV { module: Some(ModScopeV { reg: Some(RegScopeV { field: None, ..r }), ..m }) },
        ),
    }
}

/// What parsing an optional decimal attribute yields: `None` for a present
/// but malformed numeral, otherwise the (absent or parsed) value.
pub open spec fn parsed_dec(ov: Option<Seq<char>>) -> Option<Option<u64>> {
    match ov {
        None => Some(None),
        Some(t) => match parse_dec_spec(t) {
            Some(x) => Some(Some(x)),
            None => None,
        },
    }
}

/// What parsing an optional reset-value attribute yields.
pub open spec fn parsed_reset(ov: Option<Seq<char>>) -> Option<Option<u64>> {
    match ov {
        None => Some(None),
        Some(t) => match parse_reset_spec(t) {
            Some(x) => Some(Some(x)),
            None => None,
        },
    }
}

/// The rewritten field description: `[begin:end] ` before the original text.
pub open spec fn bracket_text(b: u64, e: u64, d: Seq<char>) -> Seq<char> {
    "["@ + dec_str(b as nat) + ":"@ + dec_str(e as nat) + "] "@ + d
}

/// What the head of register opening yields: the group and name/value/offset
/// output, the attribute diagnostics, and the updated used-name set.
pub struct RegHead {
    pub out: Seq<OutV>,
    pub diags: Seq<DiagV>,
    pub used2: Option<Seq<Seq<char>>>,
}

/// The head of register opening: the lazily opened registers group, the
/// register tag, the (deduplicated) name, and the value and offset fields.
pub open spec fn register_open_head(cfg: Args, m: ModScopeV, attrs: Seq<AttrV>) -> RegHead {
    let sz = cfg.sanitize;
    let f_id = attr_lookup(attrs, sz, "id"@);
    let f_value = attr_lookup(attrs, sz, "value"@);
    let f_offset = attr_lookup(attrs, sz, "offset"@);
    let d0 = unknown_attr_diags(cfg.verbose > 0, ElemKind::Register, attrs);
    let o0 = (if !m.registers_open {
        seq![OutV::StartTag("registers"@)]
    } else {
        Seq::empty()
    }) + seq![OutV::StartTag("register"@)];
    // register name, deduplicated within the module under sanitize
    let name_part = match f_id {
        Some(id) => match m.used_regs {
            Some(used) => (
                tag_out("name"@, dedup_name(used, id)),
                dedup_diags(used, id),
                Some(used.push(dedup_name(used, id))),
            ),
            None => (tag_out("name"@, id), Seq::<DiagV>::empty(), None),
        },
        None => (Seq::<OutV>::empty(), Seq::<DiagV>::empty(), m.used_regs),
    };
    RegHead {
        out: o0 + name_part.0 + (match f_value {
            Some(v) => tag_out("value"@, v),
            None => Seq::empty(),
        }) + (match f_offset {
            Some(v) => tag_out("addressOffset"@, v),
            None => Seq::empty(),
        }),
        diags: d0 + name_part.1,
        used2: name_part.2,
    }
}

/// Opening a `register`: what it emits and the scope it creates. The caller
/// has checked that the module scope is open and no register scope is.
pub open spec fn register_open_step(cfg: Args, m: ModScopeV, attrs: Seq<AttrV>) -> PStep {
    let sz = cfg.sanitize;
    let f_id = attr_lookup(attrs, sz, "id"@);
    let f_width = attr_lookup(attrs, sz, "width"@);
    let f_desc = attr_lookup(attrs, sz, "description"@);
    let f_rw = attr_lookup(attrs, sz, "rwaccess"@);
    let f_resetval = attr_lookup(attrs, sz, "resetval"@);
    let head = register_open_head(cfg, m, attrs);
    // the declared width, which every later check is against
    match f_width {
        Some(wt) => match parse_dec_spec(wt) {
            Some(w) => if w <= 64 {
                let fin = register_open_finish(cfg, head.used2, f_id, f_desc, f_rw, f_resetval, Some(w));
                PStep {
                    out: head.out + tag_out("size"@, wt) + fin.out,
                    diags: head.diags + fin.diags,
                    res: fin.res,
                }
            } else {
                PStep {
                    out: head.out,
                    diags: head.diags,
                    res: Err(ErrorV::MalformedNumber { context: "width"@, value: wt }),
                }
            },
            None => PStep {
                out: head.out,
                diags: head.diags,
                res: Err(ErrorV::MalformedNumber { context: "width"@, value: wt }),
            },
        },
        None => {
            let fin = register_open_finish(cfg, head.used2, f_id, f_desc, f_rw, f_resetval, None);
            PStep { out: head.out + fin.out, diags: head.diags + fin.diags, res: fin.res }
        },
    }
}

/// The tail of register opening: description, access, and the reset-value
/// attribute's malformed-number check.
pub open spec fn register_open_finish(
    cfg: Args,
    used2: Option<Seq<Seq<char>>>,
    f_id: Option<Seq<char>>,
    f_desc: Option<Seq<char>>,
    f_rw: Option<Seq<char>>,
    f_resetval: Option<Seq<char>>,
    width: Option<u64>,
) -> PStep {
    let o2 = (match f_desc {
        Some(t) => tag_out("description"@, t),
        None => match f_id {
            Some(id) => tag_out("description"@, id),
            None => tag_out("description"@, "--"@),
        },
    });
    let acc = match f_rw {
        Some(c) => access_out(cfg.silent, c),
        None => (Seq::<OutV>::empty(), Seq::<DiagV>::empty()),
    };
    let o3 = o2 + acc.0;
    let d2 = acc.1;
    // the accumulator starts absent and takes only validated field
    // contributions; the reset-value attribute is checked as a numeral but
    // its value never enters the accumulator
    let st2 = PStateV {
        module: Some(
            ModScopeV {
                registers_open: true,
                used_regs: used2,
                reg: Some(RegScopeV { fields_open: false, width, accum: None, field: None }),
            },
        ),
    };
    match f_resetval {
        None => PStep { out: o3, diags: d2, res: Ok(st2) },
        Some(rt) => match parse_reset_spec(rt) {
            Some(_) => PStep { out: o3, diags: d2, res: Ok(st2) },
            None => if cfg.sanitize {
                PStep {
                    out: o3,
                    diags: d2 + seq![DiagV::BadResetValue { value: rt }],
                    res: Ok(st2),
                }
            } else {
                PStep {
                    out: o3,
                    diags: d2,
                    res: Err(ErrorV::MalformedNumber { context: "resetval"@, value: rt }),
                }
            },
        },
    }
}

/// The emission tail of bitfield opening: name, description, width, offset,
/// range, and the new field scope.
pub open spec fn bitfield_emit(
    cfg: Args,
    m: ModScopeV,
    r: RegScopeV,
    f_name: Option<Seq<char>>,
    f_range: Option<Seq<char>>,
    f_desc: Option<Seq<char>>,
    begin: Option<u64>,
    width: Option<u64>,
    end: Option<u64>,
    accum2: Option<u64>,
) -> PStep {
    let o1 = (match f_name {
        Some(n) => tag_out("name"@, n),
        None => Seq::empty(),
    });
    let o2 = o1 + (match f_desc {
        Some(t) => if begin is Some && end is Some {
            tag_out("description"@, bracket_text(begin.unwrap(), end.unwrap(), t))
        } else {
            tag_out("description"@, t)
        },
        None => Seq::empty(),
    });
    let o3 = o2 + (match width {
        Some(w) => tag_out("bitWidth"@, dec_str(w as nat)),
        None => Seq::empty(),
    });
    let o4 = o3 + (match end {
        Some(e) => tag_out("bitOffset"@, dec_str(e as nat)),
        None => Seq::empty(),
    });
    let o5 = o4 + (if !cfg.sanitize && f_range is Some {
        tag_out("bitRange"@, f_range.unwrap())
    } else {
        Seq::empty()
    });
    PStep {
        out: o5,
        diags: Seq::empty(),
        res: Ok(
            PStateV {
                module: Some(
                    ModScopeV {
                        reg: Some(
                            RegScopeV {
                                fields_open: true,
                                accum: accum2,
                                field: Some(
                                    FieldScopeV { enums_open: false, used_enums: None },
                                ),
                                ..r
                            },
                        ),
                        ..m
                    },
                ),
            },
        ),
    }
}

/// The packing decision of one bitfield, made when both an offset and a
/// reset value are present: the unconditional placement check, then the
/// value-fit check, fatal or downgraded as the configuration says.
pub open spec fn bitfield_pack(
    cfg: Args,
    m: ModScopeV,
    r: RegScopeV,
    f_name: Option<Seq<char>>,
    f_range: Option<Seq<char>>,
    f_desc: Option<Seq<char>>,
    begin: Option<u64>,
    width: Option<u64>,
    end: Option<u64>,
    reset: Option<u64>,
) -> PStep {
    if end is Some && reset is Some {
        let e = end.unwrap();
        let v = reset.unwrap();
        let rw = r.effective_width();
        if width is Some && e + width.unwrap() > rw {
            PStep {
                out: Seq::empty(),
                diags: Seq::empty(),
                res: Err(
                    ErrorV::FieldTooWide {
                        field: f_name,
                        end: e,
                        width: width.unwrap(),
                        register_width: rw,
                    },
                ),
            }
        } else if e < rw {
            if reset_fits(v, e, rw) {
                bitfield_emit(
                    cfg,
                    m,
                    r,
                    f_name,
                    f_range,
                    f_desc,
                    begin,
                    width,
                    end,
                    apply_contribution(r.accum, contribution(v, e) as u64),
                )
            } else if cfg.sanitize {
                let em = bitfield_emit(cfg, m, r, f_name, f_range, f_desc, begin, width, end, r.accum);
                PStep {
                    out: em.out,
                    diags: seq![DiagV::ResetValueTooBig { field: f_name, value: v }] + em.diags,
                    res: em.res,
                }
            } else {
                PStep {
                    out: Seq::empty(),
                    diags: Seq::empty(),
                    res: Err(ErrorV::ResetValueOverflow { field: f_name, value: v }),
                }
            }
        } else {
            bitfield_emit(cfg, m, r, f_name, f_range, f_desc, begin, width, end, r.accum)
        }
    } else {
        bitfield_emit(cfg, m, r, f_name, f_range, f_desc, begin, width, end, r.accum)
    }
}

/// Opening a `bitfield`: gather and parse the attributes, derive the width
/// from `begin`/`end` when both are present, pack, then emit. The caller
/// has checked that a register scope is open and no field scope is.
pub open spec fn bitfield_open_step(cfg: Args, m: ModScopeV, r: RegScopeV, attrs: Seq<AttrV>) -> PStep {
    let sz = cfg.sanitize;
    let f_name = attr_lookup(attrs, sz, "id"@);
    let f_range = attr_lookup(attrs, sz, "range"@);
    let f_begin = attr_lookup(attrs, sz, "begin"@);
    let f_width = attr_lookup(attrs, sz, "width"@);
    let f_end = attr_lookup(attrs, sz, "end"@);
    let f_rw = attr_lookup(attrs, sz, "rwaccess"@);
    let f_desc = attr_lookup(attrs, sz, "description"@);
    let f_resetval = attr_lookup(attrs, sz, "resetval"@);
    let d0 = unknown_attr_diags(cfg.verbose > 0, ElemKind::Bitfield, attrs);
    let o0 = (if !r.fields_open {
        seq![OutV::StartTag("fields"@)]
    } else {
        Seq::empty()
    }) + seq![OutV::StartTag("field"@)];
    if parsed_dec(f_begin) is None {
        PStep {
            out: o0,
            diags: d0,
            res: Err(ErrorV::MalformedNumber { context: "begin"@, value: f_begin.unwrap() }),
        }
    } else if parsed_dec(f_width) is None {
        PStep {
            out: o0,
            diags: d0,
            res: Err(ErrorV::MalformedNumber { context: "width"@, value: f_width.unwrap() }),
        }
    } else if parsed_dec(f_end) is None {
        PStep {
            out: o0,
            diags: d0,
            res: Err(ErrorV::MalformedNumber { context: "end"@, value: f_end.unwrap() }),
        }
    } else {
        let begin = parsed_dec(f_begin).unwrap();
        let width0 = parsed_dec(f_width).unwrap();
        let end = parsed_dec(f_end).unwrap();
        // an inverted or overlong range cannot be a bit range
        if begin is Some && end is Some && (begin.unwrap() < end.unwrap() || (begin.unwrap()
            == u64::MAX && end.unwrap() == 0)) {
            PStep {
                out: o0,
                diags: d0,
                res: Err(ErrorV::MalformedNumber { context: "begin"@, value: f_begin.unwrap() }),
            }
        } else {
            // begin is trusted over an explicit width
            let width = if begin is Some && end is Some {
                Some((begin.unwrap() - end.unwrap() + 1) as u64)
            } else {
                width0
            };
            match parsed_reset(f_resetval) {
                Some(reset) => {
                    let pk = bitfield_pack(cfg, m, r, f_name, f_range, f_desc, begin, width, end, reset);
                    PStep { out: o0 + pk.out, diags: d0 + pk.diags, res: pk.res }
                },
                None => if cfg.sanitize {
                    let pk = bitfield_pack(cfg, m, r, f_name, f_range, f_desc, begin, width, end, None);
                    PStep {
                        out: o0 + pk.out,
                        diags: d0 + seq![DiagV::BadResetValue { value: f_resetval.unwrap() }]
                            + pk.diags,
                        res: pk.res,
                    }
                } else {
                    PStep {
                        out: o0,
                        diags: d0,
                        res: Err(
                            ErrorV::MalformedNumber {
                                context: "resetval"@,
                                value: f_resetval.unwrap(),
                            },
                        ),
                    }
                },
            }
        }
    }
}

/// Opening a `bitenum`: open the enumerated-values group lazily, then emit
/// the entry unless its value literal was already seen in this field under
/// sanitize. The caller has checked that a field scope is open.
pub open spec fn bitenum_open_step(
    cfg: Args,
    m: ModScopeV,
    r: RegScopeV,
    f: FieldScopeV,
    attrs: Seq<AttrV>,
) -> PStep {
    let sz = cfg.sanitize;
    let f_id = attr_lookup(attrs, sz, "id"@);
    let f_value = attr_lookup(attrs, sz, "value"@);
    let f_desc = attr_lookup(attrs, sz, "description"@);
    let d0 = unknown_attr_diags(cfg.verbose > 0, ElemKind::Bitenum, attrs);
    let o0 = if !f.enums_open {
        seq![OutV::StartTag("enumeratedValues"@)]
    } else {
        Seq::empty()
    };
    let used0 = if !f.enums_open && cfg.sanitize {
        Some(Seq::<Seq<char>>::empty())
    } else {
        f.used_enums
    };
    let st2 = |used: Option<Seq<Seq<char>>>| PStateV {
        module: Some(
            ModScopeV {
                reg: Some(
                    RegScopeV {
                        field: Some(FieldScopeV { enums_open: true, used_enums: used }),
                        ..r
                    },
                ),
                ..m
            },
        ),
    };
    match f_value {
        None => PStep { out: o0, diags: d0, res: Ok(st2(used0)) },
        Some(v) => {
            let dup = used0 is Some && used0.unwrap().contains(v);
            if dup {
                PStep {
                    out: o0,
                    diags: d0 + seq![DiagV::NonUniqueEnumValue { value: v }],
                    res: Ok(st2(used0)),
                }
            } else {
                let entry = seq![OutV::StartTag("enumeratedValue"@)] + (match f_id {
                    Some(id) => tag_out("name"@, id),
                    None => if cfg.sanitize {
                        tag_out("name"@, v)
                    } else {
                        Seq::empty()
                    },
                }) + tag_out("value"@, v) + (match f_desc {
                    Some(t) => tag_out("description"@, t),
                    None => Seq::empty(),
                }) + seq![OutV::EndTag];
                let used2 = match used0 {
                    Some(u) => Some(u.push(v)),
                    None => None,
                };
                PStep { out: o0 + entry, diags: d0, res: Ok(st2(used2)) }
            }
        },
    }
}

/// One step of the peripheral transducer.
pub open spec fn periph_step(cfg: Args, st: PStateV, ev: EventV) -> PStep {
    let verbose = cfg.verbose > 0;
    match ev {
        EventV::Start { name, attrs } => {
            if name == "module"@ {
                match st.module {
                    None => module_open_step(cfg, attrs),
                    Some(_) => ignored_step(st, verbose, true, name, true),
                }
            } else if name == "register"@ {
                match st.module {
                    Some(m) => if m.reg is None {
                        register_open_step(cfg, m, attrs)
                    } else {
                        ignored_step(st, verbose, true, name, true)
                    },
                    None => ignored_step(st, verbose, true, name, true),
                }
            } else if name == "bitfield"@ {
                match st.module {
                    Some(m) => match m.reg {
                        Some(r) => if r.field is None {
                            bitfield_open_step(cfg, m, r, attrs)
                        } else {
                            ignored_step(st, verbose, true, name, true)
                        },
                        None => ignored_step(st, verbose, true, name, true),
                    },
                    None => ignored_step(st, verbose, true, name, true),
                }
            } else if name == "bitenum"@ {
                match st.module {
                    Some(m) => match m.reg {
                        Some(r) => match r.field {
                            Some(f) => bitenum_open_step(cfg, m, r, f, attrs),
                            None => ignored_step(st, verbose, true, name, true),
                        },
                        None => ignored_step(st, verbose, true, name, true),
                    },
                    None => ignored_step(st, verbose, true, name, true),
                }
            } else {
                ignored_step(st, verbose, false, name, true)
            }
        },
        EventV::End { name } => {
            if name == "module"@ {
                match st.module {
                    Some(m) => if m.reg is None {
                        module_close_step(cfg, m)
                    } else {
                        ignored_step(st, verbose, true, name, false)
                    },
                    None => ignored_step(st, verbose, true, name, false),
                }
            } else if name == "register"@ {
                match st.module {
                    Some(m) => match m.reg {
                        Some(r) => if r.field is None {
                            register_close_step(cfg, m, r)
                        } else {
                            ignored_step(st, verbose, true, name, false)
                        },
                        None => ignored_step(st, verbose, true, name, false),
                    },
                    None => ignored_step(st, verbose, true, name, false),
                }
            } else if name == "bitfield"@ {
                match st.module {
                    Some(m) => match m.reg {
                        Some(r) => match r.field {
                            Some(f) => bitfield_close_step(m, r, f),
                            None => ignored_step(st, verbose, true, name, false),
                        },
                        None => ignored_step(st, verbose, true, name, false),
                    },
                    None => ignored_step(st, verbose, true, name, false),
                }
            } else if name == "bitenum"@ {
                PStep { out: Seq::empty(), diags: Seq::empty(), res: Ok(st) }
            } else {
                ignored_step(st, verbose, false, name, false)
            }
        },
    }
}

/// Render the reset-value text of a register.
fn reset_text_str(accum: &Option<u64>) -> (r: String)
    ensures
        r@ == reset_text(*accum),
{
    match accum {
        Some(v) => {
            let mut s = String::from_str("0x");
            let h = u64_to_hex_upper(*v);
            s.append(h.as_str());
            s
        },
        None => String::from_str("0"),
    }
}

/// Build the rewritten `[begin:end] ` description.
fn bracket_desc(b: u64, e: u64, d: &str) -> (r: String)
    ensures
        r@ == bracket_text(b, e, d@),
{
    let mut s = String::from_str("[");
    let bs = u64_to_dec(b);
    s.append(bs.as_str());
    s.append(":");
    let es = u64_to_dec(e);
    s.append(es.as_str());
    s.append("] ");
    s.append(d);
    s
}

/// Parse an optional decimal attribute.
fn parse_opt_dec(v: &Option<String>) -> (r: Option<Option<u64>>)
    ensures
        r == parsed_dec(v.deep_view()),
{
    match v {
        None => Some(None),
        Some(t) => match parse_u64_dec(t.as_str()) {
            Some(x) => Some(Some(x)),
            None => None,
        },
    }
}

/// Parse an optional reset-value attribute.
fn parse_opt_reset(v: &Option<String>) -> (r: Option<Option<u64>>)
    ensures
        r == parsed_reset(v.deep_view()),
{
    match v {
        None => Some(None),
        Some(t) => match parse_u64_reset(t.as_str()) {
            Some(x) => Some(Some(x)),
            None => None,
        },
    }
}

fn clone_opt_string(v: &Option<String>) -> (r: Option<String>)
    ensures
        r.deep_view() == v.deep_view(),
{
    match v {
        Some(s) => Some(s.clone()),
        None => None,
    }
}

/// Process the opening of a `module` element.
fn module_open(cfg: &Args, attrs: &Vec<Attr>, out: &mut Vec<OutEvent>, diags: &mut Vec<Diag>) -> (m:
    ModScope)
    ensures
        ({
            let sp = module_open_step(*cfg, attrs.deep_view());
            final(out).deep_view() == old(out).deep_view() + sp.out && final(diags).deep_view()
                == old(diags).deep_view() + sp.diags && sp.res == Ok::<PStateV, ErrorV>(
                PStateV { module: Some(m.deep_view()) },
            )
        }),
{
    let ghost out0 = out.deep_view();
    let ghost dg0 = diags.deep_view();
    let ghost av = attrs.deep_view();
    if cfg.peripheral_only {
        emit_start(out, "peripheral");
    }
    let ghost o_base = out.deep_view();
    proof {
        assert(av.take(0) =~= Seq::<AttrV>::empty());
        assert(out.deep_view() =~= o_base + module_attrs_out(*cfg, av.take(0)).0);
        assert(diags.deep_view() =~= dg0 + module_attrs_out(*cfg, av.take(0)).1);
        if cfg.peripheral_only {
            assert(o_base =~= out0 + seq![OutV::StartTag("peripheral"@)]);
        } else {
            assert(o_base =~= out0);
        }
    }
    let n = attrs.len();
    let mut i: usize = 0;
    while i < n
        invariant
            0 <= i <= n,
            n == attrs.len(),
            av == attrs.deep_view(),
            av.len() == n,
            forall|j: int| 0 <= j < n ==> av[j] == attrs[j].deep_view(),
            out.deep_view() == o_base + module_attrs_out(*cfg, av.take(i as int)).0,
            diags.deep_view() == dg0 + module_attrs_out(*cfg, av.take(i as int)).1,
        decreases n - i,
    {
        let a = &attrs[i];
        let v: String = if cfg.sanitize {
            crate::text::trim(a.value.as_str())
        } else {
            a.value.clone()
        };
        proof {
            assert(v@ == read_value(cfg.sanitize, av[i as int].value));
        }
        let ghost pre_o = out.deep_view();
        let ghost pre_d = diags.deep_view();
        if str_eq(&a.name, "HW_revision") || str_eq(&a.name, "XML_version") || str_eq(
            &a.name,
            "noNamespaceSchemaLocation",
        ) || str_eq(&a.name, "token") {
        } else if str_eq(&a.name, "id") {
            if cfg.peripheral_only {
                emit_tag(out, "name", v.as_str());
            }
        } else if str_eq(&a.name, "value") {
            if cfg.peripheral_only {
                emit_tag(out, "value", v.as_str());
            }
        } else if str_eq(&a.name, "description") {
            emit_tag(out, "description", v.as_str());
        } else {
            if cfg.verbose > 0 {
                push_diag(
                    diags,
                    Diag::UnknownAttr {
                        element: String::from_str("module"),
                        attr: a.name.clone(),
                    },
                );
            }
        }
        proof {
            let one = module_attr_out(*cfg, av[i as int].name, read_value(
                cfg.sanitize,
                av[i as int].value,
            ));
            assert(out.deep_view() =~= pre_o + one.0);
            assert(diags.deep_view() =~= pre_d + one.1);
            assert(av.take(i + 1).drop_last() =~= av.take(i as int));
            assert(av.take(i + 1).last() == av[i as int]);
            assert(out.deep_view() =~= o_base + module_attrs_out(*cfg, av.take(i + 1)).0);
            assert(diags.deep_view() =~= dg0 + module_attrs_out(*cfg, av.take(i + 1)).1);
        }
        i = i + 1;
    }
    proof {
        assert(av.take(n as int) =~= av);
    }
    let m = ModScope {
        registers_open: false,
        used_regs: if cfg.sanitize {
            Some(Vec::new())
        } else {
            None
        },
        reg: None,
    };
    proof {
        if cfg.sanitize {
            assert(m.used_regs.deep_view() =~= Some(Seq::<Seq<char>>::empty()));
            assert(m.used_regs.unwrap().deep_view() =~= Seq::<Seq<char>>::empty());
        }
        assert(module_open_step(*cfg, av).res == Ok::<PStateV, ErrorV>(PStateV { module: Some(m.deep_view()) }));
    }
    m
}

/// Process the closing of a `module` element.
fn module_close(cfg: &Args, m: ModScope, out: &mut Vec<OutEvent>) -> (s: PeriphState)
    requires
        m.deep_view().reg is None,
    ensures
        ({
            let sp = module_close_step(*cfg, m.deep_view());
            final(out).deep_view() == old(out).deep_view() + sp.out && sp.res == Ok::<PStateV, ErrorV>(s.deep_view())
        }),
{
    let ghost out0 = out.deep_view();
    if m.registers_open {
        emit_end(out);
    }
    if cfg.peripheral_only {
        emit_end(out);
    }
    proof {
        assert(out.deep_view() =~= out0 + module_close_step(*cfg, m.deep_view()).out);
    }
    PeriphState { module: None }
}

/// Process the closing of a `register` element.
fn register_close(cfg: &Args, m: ModScope, out: &mut Vec<OutEvent>) -> (s: PeriphState)
    requires
        m.deep_view().reg is Some,
        m.deep_view().reg.unwrap().field is None,
    ensures
        ({
            let sp = register_close_step(*cfg, m.deep_view(), m.deep_view().reg.unwrap());
            final(out).deep_view() == old(out).deep_view() + sp.out && sp.res == Ok::<PStateV, ErrorV>(s.deep_view())
        }),
{
    let ghost out0 = out.deep_view();
    let ghost mv = m.deep_view();
    let ModScope { registers_open, used_regs, reg } = m;
    let r = match reg {
        Some(r) => r,
        None => RegScope { fields_open: false, width: None, accum: None, field: None },
    };
    if r.fields_open {
        emit_end(out);
    }
    let t = reset_text_str(&r.accum);
    emit_tag(out, "resetValue", t.as_str());
    emit_end(out);
    let s = PeriphState { module: Some(ModScope { registers_open, used_regs, reg: None }) };
    proof {
        assert(out.deep_view() =~= out0 + register_close_step(*cfg, mv, mv.reg.unwrap()).out);
    }
    s
}

/// Process the head of an opening `register` element: the group and
/// register tags, the deduplicated name, and the value and offset fields.
#[verifier::rlimit(100)]
#[verifier::spinoff_prover]
fn reg_open_head(
    cfg: &Args,
    m: ModScope,
    attrs: &Vec<Attr>,
    out: &mut Vec<OutEvent>,
    diags: &mut Vec<Diag>,
) -> (r: (ModScope, Option<String>, Option<String>, Option<String>, Option<String>, Option<String>))
    requires
        m.deep_view().reg is None,
    ensures
        ({
            let sz = cfg.sanitize;
            let av = attrs.deep_view();
            let head = register_open_head(*cfg, m.deep_view(), av);
            final(out).deep_view() == old(out).deep_view() + head.out && final(diags).deep_view()
                == old(diags).deep_view() + head.diags && r.0.deep_view() == (ModScopeV {
                registers_open: true,
                used_regs: head.used2,
                reg: None,
            }) && r.1.deep_view() == attr_lookup(av, sz, "id"@) && r.2.deep_view() == attr_lookup(
                av,
                sz,
                "width"@,
            ) && r.3.deep_view() == attr_lookup(av, sz, "description"@) && r.4.deep_view()
                == attr_lookup(av, sz, "rwaccess"@) && r.5.deep_view() == attr_lookup(
                av,
                sz,
                "resetval"@,
            )
        }),
{
    let ghost mv = m.deep_view();
    let ghost av = attrs.deep_view();
    let ghost out0 = out.deep_view();
    let ghost dg0 = diags.deep_view();
    let ghost sz = cfg.sanitize;
    push_unknown_attr_diags(cfg.verbose > 0, ElemKind::Register, attrs, diags);
    let f_id = find_attr(attrs, cfg.sanitize, "id");
    let f_value = find_attr(attrs, cfg.sanitize, "value");
    let f_width = find_attr(attrs, cfg.sanitize, "width");
    let f_desc = find_attr(attrs, cfg.sanitize, "description");
    let f_rw = find_attr(attrs, cfg.sanitize, "rwaccess");
    let f_offset = find_attr(attrs, cfg.sanitize, "offset");
    let f_resetval = find_attr(attrs, cfg.sanitize, "resetval");
    let ghost g_id = attr_lookup(av, sz, "id"@);
    let ghost d0 = unknown_attr_diags(cfg.verbose > 0, ElemKind::Register, av);
    let mut m = m;
    if !m.registers_open {
        emit_start(out, "registers");
    }
    m.registers_open = true;
    emit_start(out, "register");
    let ghost o0 = (if !mv.registers_open {
        seq![OutV::StartTag("registers"@)]
    } else {
        Seq::<OutV>::empty()
    }) + seq![OutV::StartTag("register"@)];
    proof {
        assert(out.deep_view() =~= out0 + o0);
    }
    // register name, deduplicated within the module under sanitize
    let ghost g_name_part = (match g_id {
        Some(id) => match mv.used_regs {
            Some(used) => (
                tag_out("name"@, dedup_name(used, id)),
                dedup_diags(used, id),
                Some(used.push(dedup_name(used, id))),
            ),
            None => (tag_out("name"@, id), Seq::<DiagV>::empty(), None),
        },
        None => (Seq::<OutV>::empty(), Seq::<DiagV>::empty(), mv.used_regs),
    });
    match &f_id {
        Some(id) => {
            match &mut m.used_regs {
                Some(used) => {
                    let dn = unique_name(used, id.clone(), diags);
                    emit_tag(out, "name", dn.as_str());
                },
                None => {
                    emit_tag(out, "name", id.as_str());
                },
            }
        },
        None => {},
    }
    proof {
        assert(out.deep_view() =~= out0 + o0 + g_name_part.0);
        assert(diags.deep_view() =~= dg0 + d0 + g_name_part.1);
        assert(m.used_regs.deep_view() == g_name_part.2);
    }
    match &f_value {
        Some(v) => emit_tag(out, "value", v.as_str()),
        None => {},
    }
    match &f_offset {
        Some(v) => emit_tag(out, "addressOffset", v.as_str()),
        None => {},
    }
    proof {
        assert(out.deep_view() =~= out0 + register_open_head(*cfg, mv, av).out);
        assert(diags.deep_view() =~= dg0 + register_open_head(*cfg, mv, av).diags);
    }
    (m, f_id, f_width, f_desc, f_rw, f_resetval)
}

/// Process the opening of a `register` element.
fn register_open(
    cfg: &Args,
    m: ModScope,
    attrs: &Vec<Attr>,
    out: &mut Vec<OutEvent>,
    diags: &mut Vec<Diag>,
) -> (r: Result<ModScope, Error>)
    requires
        m.deep_view().reg is None,
    ensures
        ({
            let sp = register_open_step(*cfg, m.deep_view(), attrs.deep_view());
            final(out).deep_view() == old(out).deep_view() + sp.out && final(diags).deep_view()
                == old(diags).deep_view() + sp.diags && (match r {
                Ok(m2) => sp.res == Ok::<PStateV, ErrorV>(PStateV { module: Some(m2.deep_view()) })
                    && m2.deep_view().wf(),
                Err(e) => sp.res == Err::<PStateV, ErrorV>(e.deep_view()),
            })
        }),
{
    let ghost mv = m.deep_view();
    let ghost av = attrs.deep_view();
    let ghost out0 = out.deep_view();
    let ghost dg0 = diags.deep_view();
    let ghost sz = cfg.sanitize;
    let ghost head = register_open_head(*cfg, mv, av);
    let (m, f_id, f_width, f_desc, f_rw, f_resetval) = reg_open_head(cfg, m, attrs, out, diags);
    // the declared width, which every later check is against
    let mut width: Option<u64> = None;
    match &f_width {
        Some(wt) => {
            match parse_u64_dec(wt.as_str()) {
                Some(w) => {
                    if w <= 64 {
                        width = Some(w);
                        emit_tag(out, "size", wt.as_str());
                    } else {
                        return Err(
                            Error::MalformedNumber {
                                context: String::from_str("width"),
                                value: wt.clone(),
                            },
                        );
                    }
                },
                None => {
                    return Err(
                        Error::MalformedNumber {
                            context: String::from_str("width"),
                            value: wt.clone(),
                        },
                    );
                },
            }
        },
        None => {},
    }
    proof {
        assert(out.deep_view() =~= out0 + (head.out + (match width {
            Some(_) => tag_out("size"@, attr_lookup(av, sz, "width"@).unwrap()),
            None => Seq::<OutV>::empty(),
        })));
    }
    let r = reg_open_finish(cfg, m, &f_id, &f_desc, &f_rw, &f_resetval, width, out, diags);
    proof {
        let sp = register_open_step(*cfg, mv, av);
        let fin = register_open_finish(
            *cfg,
            head.used2,
            attr_lookup(av, sz, "id"@),
            attr_lookup(av, sz, "description"@),
            attr_lookup(av, sz, "rwaccess"@),
            attr_lookup(av, sz, "resetval"@),
            width,
        );
        assert(out.deep_view() =~= out0 + sp.out);
        assert(diags.deep_view() =~= dg0 + sp.diags);
    }
    r
}

/// The tail of register opening: description, access, and the reset-value
/// attribute's malformed-number check.
fn reg_open_finish(
    cfg: &Args,
    m: ModScope,
    f_id: &Option<String>,
    f_desc: &Option<String>,
    f_rw: &Option<String>,
    f_resetval: &Option<String>,
    width: Option<u64>,
    out: &mut Vec<OutEvent>,
    diags: &mut Vec<Diag>,
) -> (r: Result<ModScope, Error>)
    requires
        m.deep_view().reg is None,
        m.deep_view().registers_open,
        width matches Some(w) ==> w <= 64,
    ensures
        ({
            let sp = register_open_finish(
                *cfg,
                m.deep_view().used_regs,
                f_id.deep_view(),
                f_desc.deep_view(),
                f_rw.deep_view(),
                f_resetval.deep_view(),
                width,
            );
            final(out).deep_view() == old(out).deep_view() + sp.out && final(diags).deep_view()
                == old(diags).deep_view() + sp.diags && (match r {
                Ok(m2) => sp.res == Ok::<PStateV, ErrorV>(PStateV { module: Some(m2.deep_view()) })
                    && m2.deep_view().wf(),
                Err(e) => sp.res == Err::<PStateV, ErrorV>(e.deep_view()),
            })
        }),
{
    let ghost out0 = out.deep_view();
    let ghost dg0 = diags.deep_view();
    let mut m = m;
    // description, with the raw id and then a placeholder as fallbacks
    match f_desc {
        Some(t) => emit_tag(out, "description", t.as_str()),
        None => match f_id {
            Some(id) => emit_tag(out, "description", id.as_str()),
            None => emit_tag(out, "description", "--"),
        },
    }
    match f_rw {
        Some(c) => write_access(cfg.silent, c, out, diags),
        None => {},
    }
    // the reset-value attribute is checked as a numeral, but its value
    // never enters the accumulator: that holds field contributions alone
    match f_resetval {
        Some(rt) => {
            match parse_u64_reset(rt.as_str()) {
                Some(_) => {},
                None => {
                    if cfg.sanitize {
                        push_diag(diags, Diag::BadResetValue { value: rt.clone() });
                    } else {
                        return Err(
                            Error::MalformedNumber {
                                context: String::from_str("resetval"),
                                value: rt.clone(),
                            },
                        );
                    }
                },
            }
        },
        None => {},
    }
    m.reg = Some(RegScope { fields_open: false, width, accum: None, field: None });
    Ok(m)
}

/// Process the head of an opening `bitfield` element: the group and field
/// tags and the attribute gathering.
#[verifier::rlimit(100)]
#[verifier::spinoff_prover]
fn bf_open_head(
    cfg: &Args,
    fields_open: bool,
    attrs: &Vec<Attr>,
    out: &mut Vec<OutEvent>,
    diags: &mut Vec<Diag>,
) -> (r: (
    Option<String>,
    Option<String>,
    Option<String>,
    Option<String>,
    Option<String>,
    Option<String>,
    Option<String>,
))
    ensures
        ({
            let sz = cfg.sanitize;
            let av = attrs.deep_view();
            let o0 = (if !fields_open {
                seq![OutV::StartTag("fields"@)]
            } else {
                Seq::<OutV>::empty()
            }) + seq![OutV::StartTag("field"@)];
            final(out).deep_view() == old(out).deep_view() + o0 && final(diags).deep_view() == old(
                diags,
            ).deep_view() + unknown_attr_diags(cfg.verbose > 0, ElemKind::Bitfield, av)
                && r.0.deep_view() == attr_lookup(av, sz, "id"@) && r.1.deep_view() == attr_lookup(
                av,
                sz,
                "range"@,
            ) && r.2.deep_view() == attr_lookup(av, sz, "begin"@) && r.3.deep_view()
                == attr_lookup(av, sz, "width"@) && r.4.deep_view() == attr_lookup(av, sz, "end"@)
                && r.5.deep_view() == attr_lookup(av, sz, "description"@) && r.6.deep_view()
                == attr_lookup(av, sz, "resetval"@)
        }),
{
    let ghost out0 = out.deep_view();
    push_unknown_attr_diags(cfg.verbose > 0, ElemKind::Bitfield, attrs, diags);
    let f_name = find_attr(attrs, cfg.sanitize, "id");
    let f_range = find_attr(attrs, cfg.sanitize, "range");
    let f_begin = find_attr(attrs, cfg.sanitize, "begin");
    let f_width = find_attr(attrs, cfg.sanitize, "width");
    let f_end = find_attr(attrs, cfg.sanitize, "end");
    let f_desc = find_attr(attrs, cfg.sanitize, "description");
    let f_resetval = find_attr(attrs, cfg.sanitize, "resetval");
    if !fields_open {
        emit_start(out, "fields");
    }
    emit_start(out, "field");
    proof {
        assert(out.deep_view() =~= out0 + ((if !fields_open {
            seq![OutV::StartTag("fields"@)]
        } else {
            Seq::<OutV>::empty()
        }) + seq![OutV::StartTag("field"@)]));
    }
    (f_name, f_range, f_begin, f_width, f_end, f_desc, f_resetval)
}

/// Pack one bitfield's contribution and emit its fields.
#[verifier::rlimit(100)]
#[verifier::spinoff_prover]
fn bf_pack_emit(
    cfg: &Args,
    m: ModScope,
    f_name: &Option<String>,
    f_range: &Option<String>,
    f_desc: &Option<String>,
    begin: Option<u64>,
    width: Option<u64>,
    end: Option<u64>,
    reset: Option<u64>,
    out: &mut Vec<OutEvent>,
    diags: &mut Vec<Diag>,
) -> (r: Result<ModScope, Error>)
    requires
        m.deep_view().reg is Some,
        m.deep_view().reg.unwrap().field is None,
        m.deep_view().wf(),
    ensures
        ({
            let sp = bitfield_pack(
                *cfg,
                m.deep_view(),
                m.deep_view().reg.unwrap(),
                f_name.deep_view(),
                f_range.deep_view(),
                f_desc.deep_view(),
                begin,
                width,
                end,
                reset,
            );
            final(out).deep_view() == old(out).deep_view() + sp.out && final(diags).deep_view()
                == old(diags).deep_view() + sp.diags && (match r {
                Ok(m2) => sp.res == Ok::<PStateV, ErrorV>(PStateV { module: Some(m2.deep_view()) })
                    && m2.deep_view().wf(),
                Err(e) => sp.res == Err::<PStateV, ErrorV>(e.deep_view()),
            })
        }),
{
    let ghost mv = m.deep_view();
    let ghost rv = mv.reg.unwrap();
    let ghost out0 = out.deep_view();
    let ghost dg0 = diags.deep_view();
    let ModScope { registers_open, used_regs, reg } = m;
    let r = match reg {
        Some(r) => r,
        None => RegScope { fields_open: false, width: None, accum: None, field: None },
    };
    let rwidth = r.width;
    let rw: u64 = match rwidth {
        Some(w) => w,
        None => 32,
    };
    let mut accum2: Option<u64> = r.accum;
    if end.is_some() && reset.is_some() {
        let e = end.unwrap();
        let v = reset.unwrap();
        if width.is_some() {
            let w = width.unwrap();
            if e > rw || w > rw - e {
                return Err(
                    Error::FieldTooWide {
                        field: clone_opt_string(f_name),
                        end: e,
                        width: w,
                        register_width: rw,
                    },
                );
            }
        }
        if e < rw {
            if fits(v, e, rw) {
                let c = shift_to_position(v, e, rw);
                proof {
                    // the OR of fitting values stays within the register
                    match rv.accum {
                        Some(a) => crate::pack::lemma_or_bound(a, c, rw),
                        None => {},
                    }
                }
                accum2 = match accum2 {
                    Some(a) => Some(a | c),
                    None => Some(c),
                };
                proof {
                    assert(accum2 == apply_contribution(rv.accum, contribution(v, e) as u64));
                }
            } else if cfg.sanitize {
                push_diag(
                    diags,
                    Diag::ResetValueTooBig { field: clone_opt_string(f_name), value: v },
                );
            } else {
                return Err(
                    Error::ResetValueOverflow { field: clone_opt_string(f_name), value: v },
                );
            }
        }
    }
    let m2 = bf_emit(
        cfg,
        ModScope { registers_open, used_regs, reg: Some(r) },
        f_name,
        f_range,
        f_desc,
        begin,
        width,
        end,
        accum2,
        out,
    );
    proof {
        let sp = bitfield_pack(
            *cfg,
            mv,
            rv,
            f_name.deep_view(),
            f_range.deep_view(),
            f_desc.deep_view(),
            begin,
            width,
            end,
            reset,
        );
        assert(out.deep_view() =~= out0 + sp.out);
        assert(diags.deep_view() =~= dg0 + sp.diags);
    }
    Ok(m2)
}

/// Emit the field's own elements and build the new field scope.
#[verifier::rlimit(100)]
#[verifier::spinoff_prover]
fn bf_emit(
    cfg: &Args,
    m: ModScope,
    f_name: &Option<String>,
    f_range: &Option<String>,
    f_desc: &Option<String>,
    begin: Option<u64>,
    width: Option<u64>,
    end: Option<u64>,
    accum2: Option<u64>,
    out: &mut Vec<OutEvent>,
) -> (m2: ModScope)
    requires
        m.deep_view().reg is Some,
        m.deep_view().wf(),
        accum2 matches Some(a) ==> (a as nat) < pow2(
            m.deep_view().reg.unwrap().effective_width() as nat,
        ),
    ensures
        ({
            let em = bitfield_emit(
                *cfg,
                m.deep_view(),
                m.deep_view().reg.unwrap(),
                f_name.deep_view(),
                f_range.deep_view(),
                f_desc.deep_view(),
                begin,
                width,
                end,
                accum2,
            );
            final(out).deep_view() == old(out).deep_view() + em.out && em.res == Ok::<
                PStateV,
                ErrorV,
            >(PStateV { module: Some(m2.deep_view()) }) && m2.deep_view().wf()
        }),
{
    let ghost mv = m.deep_view();
    let ghost rv = mv.reg.unwrap();
    let ghost out0 = out.deep_view();
    let ModScope { registers_open, used_regs, reg } = m;
    let r = match reg {
        Some(r) => r,
        None => RegScope { fields_open: false, width: None, accum: None, field: None },
    };
    match f_name {
        Some(n) => emit_tag(out, "name", n.as_str()),
        None => {},
    }
    match f_desc {
        Some(t) => {
            if begin.is_some() && end.is_some() {
                let bd = bracket_desc(begin.unwrap(), end.unwrap(), t.as_str());
                emit_tag(out, "description", bd.as_str());
            } else {
                emit_tag(out, "description", t.as_str());
            }
        },
        None => {},
    }
    match width {
        Some(w) => {
            let ws = u64_to_dec(w);
            emit_tag(out, "bitWidth", ws.as_str());
        },
        None => {},
    }
    match end {
        Some(e) => {
            let es = u64_to_dec(e);
            emit_tag(out, "bitOffset", es.as_str());
        },
        None => {},
    }
    if !cfg.sanitize {
        match f_range {
            Some(rg) => emit_tag(out, "bitRange", rg.as_str()),
            None => {},
        }
    }
    let m2 = ModScope {
        registers_open,
        used_regs,
        reg: Some(
            RegScope {
                fields_open: true,
                width: r.width,
                accum: accum2,
                field: Some(FieldScope { enums_open: false, used_enums: None }),
            },
        ),
    };
    proof {
        let em = bitfield_emit(
            *cfg,
            mv,
            rv,
            f_name.deep_view(),
            f_range.deep_view(),
            f_desc.deep_view(),
            begin,
            width,
            end,
            accum2,
        );
        assert(out.deep_view() =~= out0 + em.out);
        assert(em.res == Ok::<PStateV, ErrorV>(PStateV { module: Some(m2.deep_view()) }));
    }
    m2
}

/// Process the opening of a `bitfield` element.
#[verifier::rlimit(100)]
#[verifier::spinoff_prover]
fn bitfield_open(
    cfg: &Args,
    m: ModScope,
    attrs: &Vec<Attr>,
    out: &mut Vec<OutEvent>,
    diags: &mut Vec<Diag>,
) -> (r: Result<ModScope, Error>)
    requires
        m.deep_view().reg is Some,
        m.deep_view().reg.unwrap().field is None,
        m.deep_view().wf(),
    ensures
        ({
            let sp = bitfield_open_step(
                *cfg,
                m.deep_view(),
                m.deep_view().reg.unwrap(),
                attrs.deep_view(),
            );
            final(out).deep_view() == old(out).deep_view() + sp.out && final(diags).deep_view()
                == old(diags).deep_view() + sp.diags && (match r {
                Ok(m2) => sp.res == Ok::<PStateV, ErrorV>(PStateV { module: Some(m2.deep_view()) })
                    && m2.deep_view().wf(),
                Err(e) => sp.res == Err::<PStateV, ErrorV>(e.deep_view()),
            })
        }),
{
    let ghost mv = m.deep_view();
    let ghost rv = mv.reg.unwrap();
    let ghost av = attrs.deep_view();
    let ghost out0 = out.deep_view();
    let ghost dg0 = diags.deep_view();
    let ghost sz = cfg.sanitize;
    let fields_open = match &m.reg {
        Some(r) => r.fields_open,
        None => false,
    };
    let (f_name, f_range, f_begin, f_width, f_end, f_desc, f_resetval) = bf_open_head(
        cfg,
        fields_open,
        attrs,
        out,
        diags,
    );
    let begin: Option<u64> = match &f_begin {
        None => None,
        Some(t) => match parse_u64_dec(t.as_str()) {
            Some(x) => Some(x),
            None => {
                return Err(
                    Error::MalformedNumber { context: String::from_str("begin"), value: t.clone() },
                );
            },
        },
    };
    let width0: Option<u64> = match &f_width {
        None => None,
        Some(t) => match parse_u64_dec(t.as_str()) {
            Some(x) => Some(x),
            None => {
                return Err(
                    Error::MalformedNumber { context: String::from_str("width"), value: t.clone() },
                );
            },
        },
    };
    let end: Option<u64> = match &f_end {
        None => None,
        Some(t) => match parse_u64_dec(t.as_str()) {
            Some(x) => Some(x),
            None => {
                return Err(
                    Error::MalformedNumber { context: String::from_str("end"), value: t.clone() },
                );
            },
        },
    };
    // an inverted or overlong range cannot be a bit range
    let mut width: Option<u64> = width0;
    if begin.is_some() && end.is_some() {
        let b = begin.unwrap();
        let e = end.unwrap();
        if b < e || (b == u64::MAX && e == 0) {
            match &f_begin {
                Some(t) => {
                    return Err(
                        Error::MalformedNumber {
                            context: String::from_str("begin"),
                            value: t.clone(),
                        },
                    );
                },
                None => {
                    proof {
                        assert(false);
                    }
                },
            }
        }
        // begin is trusted over an explicit width
        width = Some(b - e + 1);
    }
    let reset: Option<u64> = match &f_resetval {
        None => None,
        Some(t) => match parse_u64_reset(t.as_str()) {
            Some(x) => Some(x),
            None => {
                if cfg.sanitize {
                    push_diag(diags, Diag::BadResetValue { value: t.clone() });
                    None
                } else {
                    return Err(
                        Error::MalformedNumber {
                            context: String::from_str("resetval"),
                            value: t.clone(),
                        },
                    );
                }
            },
        },
    };
    let r = bf_pack_emit(cfg, m, &f_name, &f_range, &f_desc, begin, width, end, reset, out, diags);
    proof {
        let sp = bitfield_open_step(*cfg, mv, rv, av);
        let pk = bitfield_pack(
            *cfg,
            mv,
            rv,
            attr_lookup(av, sz, "id"@),
            attr_lookup(av, sz, "range"@),
            attr_lookup(av, sz, "description"@),
            begin,
            width,
            end,
            reset,
        );
        assert(out.deep_view() =~= out0 + sp.out);
        assert(diags.deep_view() =~= dg0 + sp.diags);
    }
    r
}

/// Process the closing of a `bitfield` element.
fn bitfield_close(m: ModScope, out: &mut Vec<OutEvent>) -> (s: PeriphState)
    requires
        m.deep_view().reg is Some,
        m.deep_view().reg.unwrap().field is Some,
    ensures
        ({
            let mv = m.deep_view();
            let sp = bitfield_close_step(mv, mv.reg.unwrap(), mv.reg.unwrap().field.unwrap());
            final(out).deep_view() == old(out).deep_view() + sp.out && sp.res == Ok::<
                PStateV,
                ErrorV,
            >(s.deep_view())
        }),
{
    let ghost out0 = out.deep_view();
    let ghost mv = m.deep_view();
    let ModScope { registers_open, used_regs, reg } = m;
    let r = match reg {
        Some(r) => r,
        None => RegScope { fields_open: false, width: None, accum: None, field: None },
    };
    let RegScope { fields_open, width, accum, field } = r;
    let f = match field {
        Some(f) => f,
        None => FieldScope { enums_open: false, used_enums: None },
    };
    if f.enums_open {
        emit_end(out);
    }
    emit_end(out);
    let s = PeriphState {
        module: Some(
            ModScope {
                registers_open,
                used_regs,
                reg: Some(RegScope { fields_open, width, accum, field: None }),
            },
        ),
    };
    proof {
        assert(out.deep_view() =~= out0 + bitfield_close_step(
            mv,
            mv.reg.unwrap(),
            mv.reg.unwrap().field.unwrap(),
        ).out);
    }
    s
}

/// Process the opening of a `bitenum` element.
#[verifier::rlimit(100)]
#[verifier::spinoff_prover]
fn bitenum_open(
    cfg: &Args,
    m: ModScope,
    attrs: &Vec<Attr>,
    out: &mut Vec<OutEvent>,
    diags: &mut Vec<Diag>,
) -> (m2: ModScope)
    requires
        m.deep_view().reg is Some,
        m.deep_view().reg.unwrap().field is Some,
        m.deep_view().wf(),
    ensures
        ({
            let mv = m.deep_view();
            let sp = bitenum_open_step(
                *cfg,
                mv,
                mv.reg.unwrap(),
                mv.reg.unwrap().field.unwrap(),
                attrs.deep_view(),
            );
            final(out).deep_view() == old(out).deep_view() + sp.out && final(diags).deep_view()
                == old(diags).deep_view() + sp.diags && sp.res == Ok::<PStateV, ErrorV>(
                PStateV { module: Some(m2.deep_view()) },
            ) && m2.deep_view().wf()
        }),
{
    let ghost mv = m.deep_view();
    let ghost rv = mv.reg.unwrap();
    let ghost fv = rv.field.unwrap();
    let ghost av = attrs.deep_view();
    let ghost out0 = out.deep_view();
    let ghost dg0 = diags.deep_view();
    let ghost sz = cfg.sanitize;
    let ModScope { registers_open, used_regs, reg } = m;
    let r = match reg {
        Some(r) => r,
        None => RegScope { fields_open: false, width: None, accum: None, field: None },
    };
    let RegScope { fields_open, width, accum, field } = r;
    let f = match field {
        Some(f) => f,
        None => FieldScope { enums_open: false, used_enums: None },
    };
    let FieldScope { enums_open, used_enums } = f;
    push_unknown_attr_diags(cfg.verbose > 0, ElemKind::Bitenum, attrs, diags);
    let f_id = find_attr(attrs, cfg.sanitize, "id");
    let f_value = find_attr(attrs, cfg.sanitize, "value");
    let f_desc = find_attr(attrs, cfg.sanitize, "description");
    let mut used: Option<Vec<String>> = used_enums;
    if !enums_open {
        emit_start(out, "enumeratedValues");
        if cfg.sanitize {
            used = Some(Vec::new());
        }
    }
    let ghost used0 = used.deep_view();
    let ghost o0 = (if !fv.enums_open {
        seq![OutV::StartTag("enumeratedValues"@)]
    } else {
        Seq::<OutV>::empty()
    });
    proof {
        assert(out.deep_view() =~= out0 + o0);
        if !fv.enums_open && cfg.sanitize {
            assert(used0 =~= Some(Seq::<Seq<char>>::empty()));
        }
    }
    match &f_value {
        None => {},
        Some(v) => {
            let dup = match &used {
                Some(u) => contains_name(u, v),
                None => false,
            };
            if dup {
                push_diag(diags, Diag::NonUniqueEnumValue { value: v.clone() });
            } else {
                emit_start(out, "enumeratedValue");
                match &f_id {
                    Some(id) => emit_tag(out, "name", id.as_str()),
                    None => {
                        if cfg.sanitize {
                            emit_tag(out, "name", v.as_str());
                        }
                    },
                }
                emit_tag(out, "value", v.as_str());
                match &f_desc {
                    Some(t) => emit_tag(out, "description", t.as_str()),
                    None => {},
                }
                emit_end(out);
                match &mut used {
                    Some(u) => {
                        let ghost up = u.deep_view();
                        u.push(v.clone());
                        proof {
                            assert(u.deep_view() =~= up.push(v@));
                        }
                    },
                    None => {},
                }
            }
        },
    }
    let m2 = ModScope {
        registers_open,
        used_regs,
        reg: Some(
            RegScope {
                fields_open,
                width,
                accum,
                field: Some(FieldScope { enums_open: true, used_enums: used }),
            },
        ),
    };
    proof {
        let sp = bitenum_open_step(*cfg, mv, rv, fv, av);
        assert(out.deep_view() =~= out0 + sp.out);
        assert(diags.deep_view() =~= dg0 + sp.diags);
        assert(sp.res == Ok::<PStateV, ErrorV>(PStateV { module: Some(m2.deep_view()) }));
    }
    m2
}

/// Record an ignored element: a name outside the vocabulary, or a known
/// element outside its place in the grammar.
fn ignored(
    st: PeriphState,
    verbose: bool,
    misplaced: bool,
    name: &String,
    start: bool,
    diags: &mut Vec<Diag>,
) -> (r: PeriphState)
    ensures
        r.deep_view() == st.deep_view(),
        final(diags).deep_view() == old(diags).deep_view() + ignored_step(
            st.deep_view(),
            verbose,
            misplaced,
            name@,
            start,
        ).diags,
{
    let ghost dg0 = diags.deep_view();
    if verbose {
        if misplaced {
            push_diag(diags, Diag::MisplacedElement { name: name.clone(), start });
        } else {
            push_diag(diags, Diag::UnknownElement { name: name.clone(), start });
        }
    }
    proof {
        assert(diags.deep_view() =~= dg0 + ignored_step(
            st.deep_view(),
            verbose,
            misplaced,
            name@,
            start,
        ).diags);
    }
    st
}

impl PeriphState {
    /// The state in which a peripheral conversion begins.
    pub fn new() -> (s: PeriphState)
        ensures
            s.deep_view() == init_pstate(),
            s.deep_view().wf(),
    {
        PeriphState { module: None }
    }

    /// Feed one element event through the transducer: emit the output
    /// events and diagnostics the event calls for, and yield the next
    /// state, or the fatal error that aborts the conversion.
    #[verifier::rlimit(100)]
    #[verifier::spinoff_prover]
    pub fn step(
        self,
        cfg: &Args,
        ev: &ElemEvent,
        out: &mut Vec<OutEvent>,
        diags: &mut Vec<Diag>,
    ) -> (r: Result<PeriphState, Error>)
        requires
            self.deep_view().wf(),
        ensures
            ({
                let sp = periph_step(*cfg, self.deep_view(), ev.deep_view());
                final(out).deep_view() == old(out).deep_view() + sp.out
                    && final(diags).deep_view() == old(diags).deep_view() + sp.diags
                    && res_dv(r) == sp.res && (r matches Ok(s2) ==> s2.deep_view().wf())
            }),
    {
        let ghost st0 = self.deep_view();
        let verbose = cfg.verbose > 0;
        let PeriphState { module } = self;
        match ev {
            ElemEvent::Start { name, attrs } => {
                if str_eq(name, "module") {
                    match module {
                        None => {
                            let m = module_open(cfg, attrs, out, diags);
                            Ok(PeriphState { module: Some(m) })
                        },
                        Some(m) => Ok(
                            ignored(
                                PeriphState { module: Some(m) },
                                verbose,
                                true,
                                name,
                                true,
                                diags,
                            ),
                        ),
                    }
                } else if str_eq(name, "register") {
                    match module {
                        Some(m) => {
                            if m.reg.is_none() {
                                match register_open(cfg, m, attrs, out, diags) {
                                    Ok(m2) => Ok(PeriphState { module: Some(m2) }),
                                    Err(e) => Err(e),
                                }
                            } else {
                                Ok(
                                    ignored(
                                        PeriphState { module: Some(m) },
                                        verbose,
                                        true,
                                        name,
                                        true,
                                        diags,
                                    ),
                                )
                            }
                        },
                        None => Ok(
                            ignored(PeriphState { module: None }, verbose, true, name, true, diags),
                        ),
                    }
                } else if str_eq(name, "bitfield") {
                    match module {
                        Some(m) => {
                            let ok = match &m.reg {
                                Some(rr) => rr.field.is_none(),
                                None => false,
                            };
                            if ok {
                                match bitfield_open(cfg, m, attrs, out, diags) {
                                    Ok(m2) => Ok(PeriphState { module: Some(m2) }),
                                    Err(e) => Err(e),
                                }
                            } else {
                                Ok(
                                    ignored(
                                        PeriphState { module: Some(m) },
                                        verbose,
                                        true,
                                        name,
                                        true,
                                        diags,
                                    ),
                                )
                            }
                        },
                        None => Ok(
                            ignored(PeriphState { module: None }, verbose, true, name, true, diags),
                        ),
                    }
                } else if str_eq(name, "bitenum") {
                    match module {
                        Some(m) => {
                            let ok = match &m.reg {
                                Some(rr) => rr.field.is_some(),
                                None => false,
                            };
                            if ok {
                                let m2 = bitenum_open(cfg, m, attrs, out, diags);
                                Ok(PeriphState { module: Some(m2) })
                            } else {
                                Ok(
                                    ignored(
                                        PeriphState { module: Some(m) },
                                        verbose,
                                        true,
                                        name,
                                        true,
                                        diags,
                                    ),
                                )
                            }
                        },
                        None => Ok(
                            ignored(PeriphState { module: None }, verbose, true, name, true, diags),
                        ),
                    }
                } else {
                    Ok(ignored(PeriphState { module }, verbose, false, name, true, diags))
                }
            },
            ElemEvent::End { name } => {
                if str_eq(name, "module") {
                    match module {
                        Some(m) => {
                            if m.reg.is_none() {
                                Ok(module_close(cfg, m, out))
                            } else {
                                Ok(
                                    ignored(
                                        PeriphState { module: Some(m) },
                                        verbose,
                                        true,
                                        name,
                                        false,
                                        diags,
                                    ),
                                )
                            }
                        },
                        None => Ok(
                            ignored(
                                PeriphState { module: None },
                                verbose,
                                true,
                                name,
                                false,
                                diags,
                            ),
                        ),
                    }
                } else if str_eq(name, "register") {
                    match module {
                        Some(m) => {
                            let ok = match &m.reg {
                                Some(rr) => rr.field.is_none(),
                                None => false,
                            };
                            if ok {
                                Ok(register_close(cfg, m, out))
                            } else {
                                Ok(
                                    ignored(
                                        PeriphState { module: Some(m) },
                                        verbose,
                                        true,
                                        name,
                                        false,
                                        diags,
                                    ),
                                )
                            }
                        },
                        None => Ok(
                            ignored(
                                PeriphState { module: None },
                                verbose,
                                true,
                                name,
                                false,
                                diags,
                            ),
                        ),
                    }
                } else if str_eq(name, "bitfield") {
                    match module {
                        Some(m) => {
                            let ok = match &m.reg {
                                Some(rr) => rr.field.is_some(),
                                None => false,
                            };
                            if ok {
                                Ok(bitfield_close(m, out))
                            } else {
                                Ok(
                                    ignored(
                                        PeriphState { module: Some(m) },
                                        verbose,
                                        true,
                                        name,
                                        false,
                                        diags,
                                    ),
                                )
                            }
                        },
                        None => Ok(
                            ignored(
                                PeriphState { module: None },
                                verbose,
                                true,
                                name,
                                false,
                                diags,
                            ),
                        ),
                    }
                } else if str_eq(name, "bitenum") {
                    proof {
                        assert(out.deep_view() =~= out.deep_view() + Seq::<OutV>::empty());
                        assert(diags.deep_view() =~= diags.deep_view() + Seq::<DiagV>::empty());
                    }
                    Ok(PeriphState { module })
                } else {
                    Ok(ignored(PeriphState { module }, verbose, false, name, false, diags))
                }
            },
        }
    }
}

/// Running the transducer over a whole event sequence, stopping at the
/// first fatal error.
pub open spec fn periph_run(cfg: Args, st: PStateV, evs: Seq<EventV>) -> PStep
    decreases evs.len(),
{
    if evs.len() == 0 {
        PStep { out: Seq::empty(), diags: Seq::empty(), res: Ok(st) }
    } else {
        let first = periph_step(cfg, st, evs[0]);
        match first.res {
            Err(e) => PStep { out: first.out, diags: first.diags, res: Err(e) },
            Ok(st1) => {
                let rest = periph_run(cfg, st1, evs.skip(1));
                PStep {
                    out: first.out + rest.out,
                    diags: first.diags + rest.diags,
                    res: rest.res,
                }
            },
        }
    }
}

/// Feed a whole event sequence through the transducer, stopping at the
/// first fatal error.
#[verifier::rlimit(100)]
#[verifier::spinoff_prover]
pub fn run_events(
    cfg: &Args,
    st: PeriphState,
    events: &Vec<ElemEvent>,
    out: &mut Vec<OutEvent>,
    diags: &mut Vec<Diag>,
) -> (r: Result<PeriphState, Error>)
    requires
        st.deep_view().wf(),
    ensures
        ({
            let sp = periph_run(*cfg, st.deep_view(), events.deep_view());
            final(out).deep_view() == old(out).deep_view() + sp.out
                && final(diags).deep_view() == old(diags).deep_view() + sp.diags
                && res_dv(r) == sp.res && (r matches Ok(s2) ==> s2.deep_view().wf())
        }),
{
    let ghost st0v = st.deep_view();
    let ghost evs = events.deep_view();
    let ghost out0 = out.deep_view();
    let ghost dg0 = diags.deep_view();
    let ghost total = periph_run(*cfg, st0v, evs);
    let n = events.len();
    let mut cur = st;
    let mut i: usize = 0;
    let ghost mut po: Seq<OutV> = Seq::empty();
    let ghost mut pd: Seq<DiagV> = Seq::empty();
    proof {
        assert(evs.skip(0) =~= evs);
        assert(po + periph_run(*cfg, st0v, evs).out =~= total.out);
        assert(pd + periph_run(*cfg, st0v, evs).diags =~= total.diags);
    }
    while i < n
        invariant
            0 <= i <= n,
            n == events.len(),
            evs == events.deep_view(),
            evs.len() == n,
            forall|j: int| 0 <= j < n ==> evs[j] == events[j].deep_view(),
            cur.deep_view().wf(),
            st0v == st.deep_view(),
            out0 == old(out).deep_view(),
            dg0 == old(diags).deep_view(),
            total == periph_run(*cfg, st0v, evs),
            out.deep_view() == out0 + po,
            diags.deep_view() == dg0 + pd,
            total.out == po + periph_run(*cfg, cur.deep_view(), evs.skip(i as int)).out,
            total.diags == pd + periph_run(*cfg, cur.deep_view(), evs.skip(i as int)).diags,
            total.res == periph_run(*cfg, cur.deep_view(), evs.skip(i as int)).res,
        decreases n - i,
    {
        let ghost curv = cur.deep_view();
        let ghost rem = periph_run(*cfg, curv, evs.skip(i as int));
        let ghost sp = periph_step(*cfg, curv, evs[i as int]);
        proof {
            assert(evs.skip(i as int).len() == n - i);
            assert(evs.skip(i as int)[0] == evs[i as int]);
            assert(evs.skip(i as int).skip(1) =~= evs.skip(i + 1));
        }
        match cur.step(cfg, &events[i], out, diags) {
            Ok(s2) => {
                cur = s2;
                proof {
                    po = po + sp.out;
                    pd = pd + sp.diags;
                    assert(rem.out =~= sp.out + periph_run(*cfg, cur.deep_view(), evs.skip(i + 1)).out);
                    assert(rem.diags =~= sp.diags + periph_run(
                        *cfg,
                        cur.deep_view(),
                        evs.skip(i + 1),
                    ).diags);
                    assert(total.out =~= po + periph_run(*cfg, cur.deep_view(), evs.skip(i + 1)).out);
                    assert(total.diags =~= pd + periph_run(
                        *cfg,
                        cur.deep_view(),
                        evs.skip(i + 1),
                    ).diags);
                }
            },
            Err(e) => {
                proof {
                    assert(rem.out == sp.out);
                    assert(rem.diags == sp.diags);
                    assert(total.res == Err::<PStateV, ErrorV>(e.deep_view()));
                    assert(total.out =~= po + sp.out);
                    assert(total.diags =~= pd + sp.diags);
                    assert(out.deep_view() =~= out0 + total.out);
                    assert(diags.deep_view() =~= dg0 + total.diags);
                }
                return Err(e);
            },
        }
        i = i + 1;
    }
    proof {
        assert(evs.skip(n as int) =~= Seq::<EventV>::empty());
        assert(total.out =~= po);
        assert(total.diags =~= pd);
    }
    Ok(cur)
}

/// The outcome of one whole conversion: the output events, the
/// diagnostics, and the fatal error if one stopped it. Output already
/// emitted when a fatal error strikes is kept, as the stream would be, and
/// must be treated as unusable.
pub struct Conversion {
    pub out: Vec<OutEvent>,
    pub diags: Vec<Diag>,
    pub err: Option<Error>,
}

/// Convert one standalone peripheral document, given as its event
/// sequence.
pub fn process_peripheral_events(cfg: &Args, events: &Vec<ElemEvent>) -> (c: Conversion)
    ensures
        ({
            let sp = periph_run(*cfg, init_pstate(), events.deep_view());
            c.out.deep_view() == sp.out && c.diags.deep_view() == sp.diags && (match c.err {
                None => sp.res is Ok,
                Some(e) => sp.res == Err::<PStateV, ErrorV>(e.deep_view()),
            })
        }),
{
    let mut out: Vec<OutEvent> = Vec::new();
    let mut diags: Vec<Diag> = Vec::new();
    proof {
        assert(out.deep_view() =~= Seq::<OutV>::empty());
        assert(diags.deep_view() =~= Seq::<DiagV>::empty());
    }
    let st = PeriphState::new();
    let ghost sp = periph_run(*cfg, init_pstate(), events.deep_view());
    match run_events(cfg, st, events, &mut out, &mut diags) {
        Ok(_) => {
            proof {
                assert(out.deep_view() =~= sp.out);
                assert(diags.deep_view() =~= sp.diags);
            }
            Conversion { out, diags, err: None }
        },
        Err(e) => {
            proof {
                assert(out.deep_view() =~= sp.out);
                assert(diags.deep_view() =~= sp.diags);
            }
            Conversion { out, diags, err: Some(e) }
        },
    }
}

/// The contributions of a sequence of `(end, width, resetValue)` fields:
/// each reset value shifted to its offset.
pub open spec fn contribs(fields: Seq<(u64, u64, u64)>) -> Seq<u64> {
    Seq::new(fields.len(), |i: int| contribution(fields[i].2, fields[i].0) as u64)
}

/// Packing correctness: when every contributing field of a register
/// satisfies `end + width <= registerWidth` and its reset value fits its
/// position, packing each field succeeds with the reset value shifted to
/// its offset, accumulating them folds to exactly the bitwise OR of all
/// the contributions, and the register renders that value as an uppercase
/// hexadecimal literal prefixed `0x`; with no contributing field the
/// rendered value is exactly `0`.
pub proof fn lemma_packing_correctness(fields: Seq<(u64, u64, u64)>, rw: u64)
    requires
        rw <= 64,
        forall|i: int| 0 <= i < fields.len() ==> (#[trigger] fields[i]).0 + fields[i].1 <= rw
            && reset_fits(fields[i].2, fields[i].0, rw),
    ensures
        forall|i: int| 0 <= i < fields.len() ==> crate::pack::pack_spec(
            (#[trigger] fields[i]).0,
            fields[i].1,
            fields[i].2,
            rw,
        ) == Ok::<u64, crate::pack::PackError>(contribs(fields)[i]),
        fields.len() > 0 ==> crate::pack::accum_fold(None, contribs(fields)) == Some(
            crate::pack::or_all(contribs(fields)),
        ) && reset_text(crate::pack::accum_fold(None, contribs(fields))) == "0x"@ + hex_str(
            crate::pack::or_all(contribs(fields)) as nat,
        ),
        fields.len() == 0 ==> crate::pack::accum_fold(None, contribs(fields)) is None && reset_text(
            crate::pack::accum_fold(None, contribs(fields)),
        ) == "0"@,
{
    crate::pack::lemma_accum_fold_is_or(contribs(fields));
    assert forall|i: int| 0 <= i < fields.len() implies crate::pack::pack_spec(
        (#[trigger] fields[i]).0,
        fields[i].1,
        fields[i].2,
        rw,
    ) == Ok::<u64, crate::pack::PackError>(contribs(fields)[i]) by {
        assert(fields[i].0 + fields[i].1 <= rw);
        assert(reset_fits(fields[i].2, fields[i].0, rw));
    }
}

/// The placement check is fatal regardless of configuration: whatever the
/// configuration says, a field whose offset plus width exceeds the
/// register's width aborts the conversion with the field-too-wide error.
pub proof fn lemma_field_too_wide_fatal(
    cfg: Args,
    m: ModScopeV,
    r: RegScopeV,
    f_name: Option<Seq<char>>,
    f_range: Option<Seq<char>>,
    f_desc: Option<Seq<char>>,
    begin: Option<u64>,
    width: Option<u64>,
    end: Option<u64>,
    reset: Option<u64>,
)
    requires
        width is Some,
        end is Some,
        reset is Some,
        end.unwrap() + width.unwrap() > r.effective_width(),
    ensures
        bitfield_pack(cfg, m, r, f_name, f_range, f_desc, begin, width, end, reset).res == Err::<
            PStateV,
            ErrorV,
        >(
            ErrorV::FieldTooWide {
                field: f_name,
                end: end.unwrap(),
                width: width.unwrap(),
                register_width: r.effective_width(),
            },
        ),
{
}

/// The sanitize downgrade: a reset value that does not fit its position is
/// fatal in the strict configuration; under sanitize the field's
/// contribution is omitted (the accumulator is unchanged), the overflow is
/// reported as a diagnostic, and the conversion continues.
pub proof fn lemma_sanitize_downgrade(
    cfg: Args,
    m: ModScopeV,
    r: RegScopeV,
    f_name: Option<Seq<char>>,
    f_range: Option<Seq<char>>,
    f_desc: Option<Seq<char>>,
    begin: Option<u64>,
    width: Option<u64>,
    end: Option<u64>,
    reset: Option<u64>,
)
    requires
        end is Some,
        reset is Some,
        width is Some ==> end.unwrap() + width.unwrap() <= r.effective_width(),
        end.unwrap() < r.effective_width(),
        !reset_fits(reset.unwrap(), end.unwrap(), r.effective_width()),
    ensures
        !cfg.sanitize ==> bitfield_pack(cfg, m, r, f_name, f_range, f_desc, begin, width, end, reset).res
            == Err::<PStateV, ErrorV>(
            ErrorV::ResetValueOverflow { field: f_name, value: reset.unwrap() },
        ),
        cfg.sanitize ==> ({
            let pk = bitfield_pack(cfg, m, r, f_name, f_range, f_desc, begin, width, end, reset);
            pk.res is Ok && pk.res->Ok_0.module.unwrap().reg.unwrap().accum == r.accum
                && pk.diags == seq![
                DiagV::ResetValueTooBig { field: f_name, value: reset.unwrap() },
            ]
        }),
{
    if cfg.sanitize {
        let pk = bitfield_pack(cfg, m, r, f_name, f_range, f_desc, begin, width, end, reset);
        let em = bitfield_emit(cfg, m, r, f_name, f_range, f_desc, begin, width, end, r.accum);
        assert(pk.diags =~= seq![
            DiagV::ResetValueTooBig { field: f_name, value: reset.unwrap() },
        ]);
    }
}

/// The enumerated-value dedup: under sanitize, an enumerated value whose
/// literal was already seen in this field emits no output at all and is
/// dropped with a diagnostic; the conversion continues.
pub proof fn lemma_enum_dedup(
    cfg: Args,
    m: ModScopeV,
    r: RegScopeV,
    f: FieldScopeV,
    attrs: Seq<AttrV>,
)
    requires
        f.enums_open,
        f.used_enums is Some,
        attr_lookup(attrs, cfg.sanitize, "value"@) is Some,
        f.used_enums.unwrap().contains(attr_lookup(attrs, cfg.sanitize, "value"@).unwrap()),
    ensures
        ({
            let sp = bitenum_open_step(cfg, m, r, f, attrs);
            sp.out == Seq::<OutV>::empty() && sp.diags == unknown_attr_diags(
                cfg.verbose > 0,
                ElemKind::Bitenum,
                attrs,
            ) + seq![
                DiagV::NonUniqueEnumValue {
                    value: attr_lookup(attrs, cfg.sanitize, "value"@).unwrap(),
                },
            ] && sp.res is Ok
        }),
{
    let sp = bitenum_open_step(cfg, m, r, f, attrs);
    assert(sp.out =~= Seq::<OutV>::empty());
}

} // verus!
