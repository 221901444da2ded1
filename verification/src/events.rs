//! The element-event data model: what the conversion consumes (element open /
//! close events with attributes) and what it emits (abstract output events),
//! together with the attribute-lookup rules shared by both transducers.
use vstd::prelude::*;
use vstd::string::*;
use crate::diag::{Diag, DiagV, push_diag};
use crate::text::{trim, trim_spec, str_eq};

verus! {

/// One attribute of an opened element: a name and a raw string value.
#[derive(Debug, Clone)]
pub struct Attr {
    pub name: String,
    pub value: String,
}

/// The mathematical value of an [`Attr`].
pub struct AttrV {
    pub name: Seq<char>,
    pub value: Seq<char>,
}

impl DeepView for Attr {
    type V = AttrV;

    open spec fn deep_view(&self) -> AttrV {
        AttrV { name: self.name@, value: self.value@ }
    }
}

impl Attr {
    /// Build an attribute from its two parts.
    pub fn new(name: String, value: String) -> (a: Attr)
        ensures
            a.deep_view().name == name@,
            a.deep_view().value == value@,
    {
        Attr { name, value }
    }
}

/// One input event: an element opening with its ordered attributes, or an
/// element closing.
#[derive(Debug, Clone)]
pub enum ElemEvent {
    Start { name: String, attrs: Vec<Attr> },
    End { name: String },
}

/// The mathematical value of an [`ElemEvent`].
pub enum EventV {
    Start { name: Seq<char>, attrs: Seq<AttrV> },
    End { name: Seq<char> },
}

impl DeepView for ElemEvent {
    type V = EventV;

    open spec fn deep_view(&self) -> EventV {
        match self {
            ElemEvent::Start { name, attrs } => EventV::Start {
                name: name@,
                attrs: attrs.deep_view(),
            },
            ElemEvent::End { name } => EventV::End { name: name@ },
        }
    }
}

impl ElemEvent {
    /// Build an element-open event.
    pub fn start(name: String, attrs: Vec<Attr>) -> (e: ElemEvent)
        ensures
            e.deep_view() == (EventV::Start { name: name@, attrs: attrs.deep_view() }),
    {
        ElemEvent::Start { name, attrs }
    }

    /// Build an element-close event.
    pub fn end(name: String) -> (e: ElemEvent)
        ensures
            e.deep_view() == (EventV::End { name: name@ }),
    {
        ElemEvent::End { name }
    }
}

/// One output event, in document order: an opening tag, text content, the
/// closing of the most recently opened tag, or a comment.
#[derive(Debug, Clone)]
pub enum OutEvent {
    StartTag(String),
    Text(String),
    EndTag,
    Comment(String),
}

/// The mathematical value of an [`OutEvent`].
pub enum OutV {
    StartTag(Seq<char>),
    Text(Seq<char>),
    EndTag,
    Comment(Seq<char>),
}

impl DeepView for OutEvent {
    type V = OutV;

    open spec fn deep_view(&self) -> OutV {
        match self {
            OutEvent::StartTag(n) => OutV::StartTag(n@),
            OutEvent::Text(t) => OutV::Text(t@),
            OutEvent::EndTag => OutV::EndTag,
            OutEvent::Comment(t) => OutV::Comment(t@),
        }
    }
}

/// The three output events of one simple `<name>content</name>` element.
pub open spec fn tag_out(name: Seq<char>, content: Seq<char>) -> Seq<OutV> {
    seq![OutV::StartTag(name), OutV::Text(content), OutV::EndTag]
}

/// An attribute value as the configuration reads it: trimmed under sanitize,
/// verbatim otherwise.
pub open spec fn read_value(sanitize: bool, v: Seq<char>) -> Seq<char> {
    if sanitize {
        trim_spec(v)
    } else {
        v
    }
}

/// Append one output event.
pub fn push_out(out: &mut Vec<OutEvent>, e: OutEvent)
    ensures
        final(out).deep_view() == old(out).deep_view().push(e.deep_view()),
{
    let ghost pre = out.deep_view();
    let ghost ev = e.deep_view();
    out.push(e);
    proof {
        assert(out.deep_view() =~= pre.push(ev));
    }
}

/// Emit an opening tag.
pub fn emit_start(out: &mut Vec<OutEvent>, name: &str)
    ensures
        final(out).deep_view() == old(out).deep_view().push(OutV::StartTag(name@)),
{
    push_out(out, OutEvent::StartTag(String::from_str(name)));
}

/// Emit the closing of the most recently opened tag.
pub fn emit_end(out: &mut Vec<OutEvent>)
    ensures
        final(out).deep_view() == old(out).deep_view().push(OutV::EndTag),
{
    push_out(out, OutEvent::EndTag);
}

/// Emit a comment.
pub fn emit_comment(out: &mut Vec<OutEvent>, text: &str)
    ensures
        final(out).deep_view() == old(out).deep_view().push(OutV::Comment(text@)),
{
    push_out(out, OutEvent::Comment(String::from_str(text)));
}

/// Emit a simple element: an opening tag, its text content, a closing tag.
pub fn emit_tag(out: &mut Vec<OutEvent>, name: &str, content: &str)
    ensures
        final(out).deep_view() == old(out).deep_view() + tag_out(name@, content@),
{
    let ghost pre = out.deep_view();
    emit_start(out, name);
    push_out(out, OutEvent::Text(String::from_str(content)));
    emit_end(out);
    proof {
        assert(out.deep_view() =~= pre + tag_out(name@, content@));
    }
}

/// The value that attribute processing leaves for `key`: attributes are
/// visited in order and a later occurrence with a non-empty (read) value
/// overwrites an earlier one, so the last non-empty occurrence wins.
pub open spec fn attr_lookup(attrs: Seq<AttrV>, sanitize: bool, key: Seq<char>) -> Option<
    Seq<char>,
>
    decreases attrs.len(),
{
    if attrs.len() == 0 {
        None
    } else {
        let last = attrs.last();
        if last.name == key && read_value(sanitize, last.value).len() > 0 {
            Some(read_value(sanitize, last.value))
        } else {
            attr_lookup(attrs.drop_last(), sanitize, key)
        }
    }
}

/// Find the attribute value for `key` under the given configuration:
/// the last occurrence with a non-empty (trimmed, under sanitize) value.
pub fn find_attr(attrs: &Vec<Attr>, sanitize: bool, key: &str) -> (r: Option<String>)
    ensures
        r.deep_view() == attr_lookup(attrs.deep_view(), sanitize, key@),
{
    let mut r: Option<String> = None;
    let n = attrs.len();
    proof {
        assert(attrs.deep_view().take(0) =~= Seq::<AttrV>::empty());
    }
    let mut i: usize = 0;
    while i < n
        invariant
            0 <= i <= n,
            n == attrs.len(),
            attrs.deep_view().len() == n,
            forall|j: int| 0 <= j < n ==> attrs.deep_view()[j] == attrs[j].deep_view(),
            r.deep_view() == attr_lookup(attrs.deep_view().take(i as int), sanitize, key@),
        decreases n - i,
    {
        let a = &attrs[i];
        let ghost pre = attrs.deep_view().take(i as int);
        proof {
            assert(attrs.deep_view().take(i + 1).drop_last() =~= pre);
            assert(attrs.deep_view().take(i + 1).last() == attrs.deep_view()[i as int]);
        }
        if str_eq(&a.name, key) {
            let v = if sanitize {
                trim(a.value.as_str())
            } else {
                a.value.clone()
            };
            if v.unicode_len() > 0 {
                r = Some(v);
            }
        }
        i = i + 1;
    }
    proof {
        assert(attrs.deep_view().take(n as int) =~= attrs.deep_view());
    }
    r
}

/// The elements whose attributes are gathered before anything is emitted.
#[derive(Debug, Clone, Copy, PartialEq, Eq, Structural)]
pub enum ElemKind {
    Register,
    Bitfield,
    Bitenum,
    Instance,
}

/// The element's name in the source vocabulary.
pub open spec fn elem_kind_name(kind: ElemKind) -> Seq<char> {
    match kind {
        ElemKind::Register => "register"@,
        ElemKind::Bitfield => "bitfield"@,
        ElemKind::Bitenum => "bitenum"@,
        ElemKind::Instance => "instance"@,
    }
}

/// Whether the element knows the attribute name (reading it or ignoring it
/// deliberately); any other name draws a diagnostic.
pub open spec fn known_attr(kind: ElemKind, n: Seq<char>) -> bool {
    match kind {
        ElemKind::Register => n == "id"@ || n == "value"@ || n == "width"@ || n == "acronym"@
            || n == "description"@ || n == "rwaccess"@ || n == "offset"@ || n == "resetval"@,
        ElemKind::Bitfield => n == "id"@ || n == "range"@ || n == "begin"@ || n == "width"@
            || n == "end"@ || n == "rwaccess"@ || n == "description"@ || n == "resetval"@,
        ElemKind::Bitenum => n == "id"@ || n == "value"@ || n == "description"@ || n == "token"@,
        ElemKind::Instance => n == "baseaddr"@ || n == "endaddr"@ || n == "size"@ || n == "id"@
            || n == "href"@,
    }
}

/// The diagnostics the attribute scan reports: one per attribute name the
/// element does not know, in attribute order, when verbose.
pub open spec fn unknown_attr_diags(verbose: bool, kind: ElemKind, attrs: Seq<AttrV>) -> Seq<DiagV>
    decreases attrs.len(),
{
    if attrs.len() == 0 {
        Seq::empty()
    } else {
        unknown_attr_diags(verbose, kind, attrs.drop_last()) + (if verbose && !known_attr(
            kind,
            attrs.last().name,
        ) {
            seq![
                DiagV::UnknownAttr { element: elem_kind_name(kind), attr: attrs.last().name },
            ]
        } else {
            Seq::empty()
        })
    }
}

fn is_known_attr(kind: ElemKind, n: &String) -> (r: bool)
    ensures
        r == known_attr(kind, n@),
{
    match kind {
        ElemKind::Register => str_eq(n, "id") || str_eq(n, "value") || str_eq(n, "width") || str_eq(
            n,
            "acronym",
        ) || str_eq(n, "description") || str_eq(n, "rwaccess") || str_eq(n, "offset") || str_eq(
            n,
            "resetval",
        ),
        ElemKind::Bitfield => str_eq(n, "id") || str_eq(n, "range") || str_eq(n, "begin") || str_eq(
            n,
            "width",
        ) || str_eq(n, "end") || str_eq(n, "rwaccess") || str_eq(n, "description") || str_eq(
            n,
            "resetval",
        ),
        ElemKind::Bitenum => str_eq(n, "id") || str_eq(n, "value") || str_eq(n, "description")
            || str_eq(n, "token"),
        ElemKind::Instance => str_eq(n, "baseaddr") || str_eq(n, "endaddr") || str_eq(n, "size")
            || str_eq(n, "id") || str_eq(n, "href"),
    }
}

fn elem_kind_str(kind: ElemKind) -> (r: &'static str)
    ensures
        r@ == elem_kind_name(kind),
{
    match kind {
        ElemKind::Register => "register",
        ElemKind::Bitfield => "bitfield",
        ElemKind::Bitenum => "bitenum",
        ElemKind::Instance => "instance",
    }
}

/// Report every attribute name the element does not know.
pub fn push_unknown_attr_diags(
    verbose: bool,
    kind: ElemKind,
    attrs: &Vec<Attr>,
    diags: &mut Vec<Diag>,
)
    ensures
        final(diags).deep_view() == old(diags).deep_view() + unknown_attr_diags(
            verbose,
            kind,
            attrs.deep_view(),
        ),
{
    let ghost d0 = diags.deep_view();
    let n = attrs.len();
    proof {
        assert(attrs.deep_view().take(0) =~= Seq::<AttrV>::empty());
        assert(diags.deep_view() =~= d0 + unknown_attr_diags(
            verbose,
            kind,
            attrs.deep_view().take(0),
        ));
    }
    let mut i: usize = 0;
    while i < n
        invariant
            0 <= i <= n,
            n == attrs.len(),
            attrs.deep_view().len() == n,
            forall|j: int| 0 <= j < n ==> attrs.deep_view()[j] == attrs[j].deep_view(),
            diags.deep_view() == d0 + unknown_attr_diags(
                verbose,
                kind,
                attrs.deep_view().take(i as int),
            ),
        decreases n - i,
    {
        let ghost pre = attrs.deep_view().take(i as int);
        proof {
            assert(attrs.deep_view().take(i + 1).drop_last() =~= pre);
            assert(attrs.deep_view().take(i + 1).last() == attrs.deep_view()[i as int]);
        }
        if verbose && !is_known_attr(kind, &attrs[i].name) {
            push_diag(
                diags,
                Diag::UnknownAttr {
                    element: String::from_str(elem_kind_str(kind)),
                    attr: attrs[i].name.clone(),
                },
            );
        }
        proof {
            assert(diags.deep_view() =~= d0 + unknown_attr_diags(
                verbose,
                kind,
                attrs.deep_view().take(i + 1),
            ));
        }
        i = i + 1;
    }
    proof {
        assert(attrs.deep_view().take(n as int) =~= attrs.deep_view());
    }
}

} // verus!
