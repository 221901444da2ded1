//! Diagnostics and fatal errors. Diagnostics are reported on a channel of
//! their own, never on the output stream, and never alter control flow;
//! a fatal error aborts the whole conversion at once.
use vstd::prelude::*;

verus! {

/// A non-fatal diagnostic. Each variant carries the identity it concerns.
#[derive(Debug, Clone)]
pub enum Diag {
    /// An access code other than `RO`, `WO` or `RW` was dropped.
    UnknownAccess { key: String },
    /// An element name outside the vocabulary was ignored.
    UnknownElement { name: String, start: bool },
    /// A known element arrived outside its place in the grammar and was
    /// ignored.
    MisplacedElement { name: String, start: bool },
    /// An attribute name outside the element's vocabulary was ignored.
    UnknownAttr { element: String, attr: String },
    /// Sanitize: a register name was already used in this module and had
    /// underscores appended.
    NonUniqueRegisterName { name: String },
    /// Sanitize: an enumerated value literal was already used in this field
    /// and the entry was dropped.
    NonUniqueEnumValue { value: String },
    /// Sanitize: a field's reset value does not fit and its contribution
    /// was omitted.
    ResetValueTooBig { field: Option<String>, value: u64 },
    /// Sanitize: a reset-value attribute that is not a numeral was ignored.
    BadResetValue { value: String },
    /// An instance whose reference is missing or not rooted under the
    /// external module path was skipped.
    InstanceSkipped { id: String },
    /// An instance event arrived outside the selected CPU scope.
    InstanceOutsideCpu { index: u64 },
    /// An accepted instance carries no size attribute.
    InstanceWithoutSize { id: String },
}

/// The mathematical value of a [`Diag`].
pub enum DiagV {
    UnknownAccess { key: Seq<char> },
    UnknownElement { name: Seq<char>, start: bool },
    MisplacedElement { name: Seq<char>, start: bool },
    UnknownAttr { element: Seq<char>, attr: Seq<char> },
    NonUniqueRegisterName { name: Seq<char> },
    NonUniqueEnumValue { value: Seq<char> },
    ResetValueTooBig { field: Option<Seq<char>>, value: u64 },
    BadResetValue { value: Seq<char> },
    InstanceSkipped { id: Seq<char> },
    InstanceOutsideCpu { index: u64 },
    InstanceWithoutSize { id: Seq<char> },
}

impl DeepView for Diag {
    type V = DiagV;

    open spec fn deep_view(&self) -> DiagV {
        match self {
            Diag::UnknownAccess { key } => DiagV::UnknownAccess { key: key@ },
            Diag::UnknownElement { name, start } => DiagV::UnknownElement {
                name: name@,
                start: *start,
            },
            Diag::MisplacedElement { name, start } => DiagV::MisplacedElement {
                name: name@,
                start: *start,
            },
            Diag::UnknownAttr { element, attr } => DiagV::UnknownAttr {
                element: element@,
                attr: attr@,
            },
            Diag::NonUniqueRegisterName { name } => DiagV::NonUniqueRegisterName { name: name@ },
            Diag::NonUniqueEnumValue { value } => DiagV::NonUniqueEnumValue { value: value@ },
            Diag::ResetValueTooBig { field, value } => DiagV::ResetValueTooBig {
                field: field.deep_view(),
                value: *value,
            },
            Diag::BadResetValue { value } => DiagV::BadResetValue { value: value@ },
            Diag::InstanceSkipped { id } => DiagV::InstanceSkipped { id: id@ },
            Diag::InstanceOutsideCpu { index } => DiagV::InstanceOutsideCpu { index: *index },
            Diag::InstanceWithoutSize { id } => DiagV::InstanceWithoutSize { id: id@ },
        }
    }
}

/// Append one diagnostic.
pub fn push_diag(diags: &mut Vec<Diag>, d: Diag)
    ensures
        final(diags).deep_view() == old(diags).deep_view().push(d.deep_view()),
{
    let ghost pre = diags.deep_view();
    let ghost dv = d.deep_view();
    diags.push(d);
    proof {
        assert(diags.deep_view() =~= pre.push(dv));
    }
}

/// A fatal conversion error. Any of these aborts the whole conversion;
/// output already emitted is not retracted and must be treated as unusable.
#[derive(Debug, Clone)]
pub enum Error {
    /// An attribute that structurally must be a number is not one (or is a
    /// register width beyond 64 bits, which the accumulator cannot hold).
    MalformedNumber { context: String, value: String },
    /// A field's position and width exceed the enclosing register's width.
    FieldTooWide { field: Option<String>, end: u64, width: u64, register_width: u64 },
    /// A field's reset value, shifted to its position, loses high bits
    /// (fatal in the strict configuration only).
    ResetValueOverflow { field: Option<String>, value: u64 },
}

/// The mathematical value of an [`Error`].
pub enum ErrorV {
    MalformedNumber { context: Seq<char>, value: Seq<char> },
    FieldTooWide { field: Option<Seq<char>>, end: u64, width: u64, register_width: u64 },
    ResetValueOverflow { field: Option<Seq<char>>, value: u64 },
}

impl DeepView for Error {
    type V = ErrorV;

    open spec fn deep_view(&self) -> ErrorV {
        match self {
            Error::MalformedNumber { context, value } => ErrorV::MalformedNumber {
                context: context@,
                value: value@,
            },
            Error::FieldTooWide { field, end, width, register_width } => ErrorV::FieldTooWide {
                field: field.deep_view(),
                end: *end,
                width: *width,
                register_width: *register_width,
            },
            Error::ResetValueOverflow { field, value } => ErrorV::ResetValueOverflow {
                field: field.deep_view(),
                value: *value,
            },
        }
    }
}

} // verus!
