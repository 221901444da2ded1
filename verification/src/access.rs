//! The access-mode translator: the vendor read/write codes and the target
//! vocabulary they map to.
use vstd::prelude::*;
use vstd::string::*;
use crate::diag::{Diag, DiagV, push_diag};
use crate::events::{tag_out, OutEvent, OutV, emit_tag};
use crate::text::str_eq;

verus! {

/// The target access word for a vendor access code: `RO`, `WO` and `RW`
/// always yield `read`, `write` and `read-write`; every other code yields
/// nothing.
pub open spec fn access_text_spec(code: Seq<char>) -> Option<Seq<char>> {
    if code == "RO"@ {
        Some("read"@)
    } else if code == "WO"@ {
        Some("write"@)
    } else if code == "RW"@ {
        Some("read-write"@)
    } else {
        None
    }
}

/// Map a vendor access code to the target vocabulary.
pub fn access_text(code: &String) -> (r: Option<String>)
    ensures
        r.deep_view() == access_text_spec(code@),
{
    if str_eq(code, "RO") {
        Some(String::from_str("read"))
    } else if str_eq(code, "WO") {
        Some(String::from_str("write"))
    } else if str_eq(code, "RW") {
        Some(String::from_str("read-write"))
    } else {
        None
    }
}

/// What translating an access code emits: an `access` element for a known
/// code; for an unknown code no output at all, only a diagnostic (unless
/// silenced).
pub open spec fn access_out(silent: bool, code: Seq<char>) -> (Seq<OutV>, Seq<DiagV>) {
    match access_text_spec(code) {
        Some(t) => (tag_out("access"@, t), seq![]),
        None => (
            Seq::empty(),
            if !silent {
                seq![DiagV::UnknownAccess { key: code }]
            } else {
                Seq::empty()
            },
        ),
    }
}

/// Translate one access code into the output stream, as the register
/// handling does.
pub fn write_access(silent: bool, code: &String, out: &mut Vec<OutEvent>, diags: &mut Vec<Diag>)
    ensures
        final(out).deep_view() == old(out).deep_view() + access_out(silent, code@).0,
        final(diags).deep_view() == old(diags).deep_view() + access_out(silent, code@).1,
{
    let ghost pre_out = out.deep_view();
    let ghost pre_diags = diags.deep_view();
    match access_text(code) {
        Some(t) => {
            emit_tag(out, "access", t.as_str());
            proof {
                assert(out.deep_view() =~= pre_out + access_out(silent, code@).0);
                assert(diags.deep_view() =~= pre_diags + access_out(silent, code@).1);
            }
        },
        None => {
            if !silent {
                push_diag(diags, Diag::UnknownAccess { key: code.clone() });
            }
            proof {
                assert(out.deep_view() =~= pre_out + access_out(silent, code@).0);
                assert(diags.deep_view() =~= pre_diags + access_out(silent, code@).1);
            }
        },
    }
}

} // verus!
