//! The nested scope records of the peripheral transducer: one per open
//! `module`, `register` and `bitfield` element, each created on the opening
//! event and discarded on the matching closing event.
use vstd::prelude::*;
use vstd::arithmetic::power2::pow2;

verus! {

/// Scope of one open `bitfield` element.
pub struct FieldScope {
    /// Whether the wrapping enumerated-values group tag has been opened yet
    /// (opened lazily on the first enumerated value).
    pub enums_open: bool,
    /// Sanitize only: the enumerated-value literals already emitted in this
    /// field.
    pub used_enums: Option<Vec<String>>,
}

/// Scope of one open `register` element.
pub struct RegScope {
    /// Whether the wrapping fields group tag has been opened yet.
    pub fields_open: bool,
    /// The register's width in bits, when its `width` attribute was given;
    /// 32 is assumed where it is needed but unknown.
    pub width: Option<u64>,
    /// The OR-accumulation of all validated field contributions; absent
    /// means no field contributed, rendered as the literal `0`.
    pub accum: Option<u64>,
    /// The open `bitfield` scope, if any.
    pub field: Option<FieldScope>,
}

/// Scope of one open `module` element.
pub struct ModScope {
    /// Whether the wrapping registers group tag has been opened yet.
    pub registers_open: bool,
    /// Sanitize only: the register names already used in this module.
    pub used_regs: Option<Vec<String>>,
    /// The open `register` scope, if any.
    pub reg: Option<RegScope>,
}

/// The mathematical value of a [`FieldScope`].
pub struct FieldScopeV {
    pub enums_open: bool,
    pub used_enums: Option<Seq<Seq<char>>>,
}

/// The mathematical value of a [`RegScope`].
pub struct RegScopeV {
    pub fields_open: bool,
    pub width: Option<u64>,
    pub accum: Option<u64>,
    pub field: Option<FieldScopeV>,
}

/// The mathematical value of a [`ModScope`].
pub struct ModScopeV {
    pub registers_open: bool,
    pub used_regs: Option<Seq<Seq<char>>>,
    pub reg: Option<RegScopeV>,
}

impl DeepView for FieldScope {
    type V = FieldScopeV;

    open spec fn deep_view(&self) -> FieldScopeV {
        FieldScopeV { enums_open: self.enums_open, used_enums: self.used_enums.deep_view() }
    }
}

impl DeepView for RegScope {
    type V = RegScopeV;

    open spec fn deep_view(&self) -> RegScopeV {
        RegScopeV {
            fields_open: self.fields_open,
            width: self.width,
            accum: self.accum,
            field: self.field.deep_view(),
        }
    }
}

impl DeepView for ModScope {
    type V = ModScopeV;

    open spec fn deep_view(&self) -> ModScopeV {
        ModScopeV {
            registers_open: self.registers_open,
            used_regs: self.used_regs.deep_view(),
            reg: self.reg.deep_view(),
        }
    }
}

impl RegScopeV {
    /// The register width every placement and fit check uses: the declared
    /// width, or 32 when none was declared.
    pub open spec fn effective_width(self) -> u64 {
        match self.width {
            Some(w) => w,
            None => 32,
        }
    }

    /// The register scope's invariant: the width fits the 64-bit
    /// accumulator, and the accumulated reset value, if present, has no bit
    /// set outside `[0, registerWidth)` — it is the OR of validated field
    /// contributions alone, each of which fits.
    pub open spec fn wf(self) -> bool {
        self.effective_width() <= 64 && (self.accum matches Some(a) ==> (a as nat) < pow2(
            self.effective_width() as nat,
        ))
    }
}

impl ModScopeV {
    pub open spec fn wf(self) -> bool {
        match self.reg {
            Some(r) => r.wf(),
            None => true,
        }
    }
}

} // verus!
