//! The tree that a template parses to, and its mathematical model.
use crate::atom::atom_text;
use swc_atoms::Atom;
use vstd::prelude::*;

verus! {

/// A half-open range of byte offsets into the source text.
#[derive(Clone, Copy, Debug, PartialEq, Eq, Structural)]
pub struct Span {
    pub lo: usize,
    pub hi: usize,
}

impl Span {
    /// True when `self` lies inside `outer`.
    pub open spec fn within(self, outer: Span) -> bool {
        outer.lo <= self.lo && self.hi <= outer.hi
    }
}

/// Literal prose.
#[derive(Debug, PartialEq, Eq)]
pub struct NotaText {
    pub span: Span,
    pub value: Atom,
}

/// Whitespace inside a line, or a run of whitespace that crossed one line boundary.
#[derive(Clone, Copy, Debug, PartialEq, Eq, Structural)]
pub struct NotaSpace {
    pub span: Span,
    pub has_newline: bool,
}

/// A paragraph separator: whitespace that crossed two or more line boundaries.
#[derive(Clone, Copy, Debug, PartialEq, Eq, Structural)]
pub struct NotaParbreak {
    pub span: Span,
}

/// An emphasis span: `*strong*`.
#[derive(Debug, PartialEq, Eq)]
pub struct NotaStrong {
    pub span: Span,
    pub elems: Vec<NotaElem>,
}

/// One item of a bullet list: `- item`.
#[derive(Debug, PartialEq, Eq)]
pub struct NotaListItem {
    pub span: Span,
    pub elems: Vec<NotaElem>,
}

/// One node of the markup tree.
#[derive(Debug, PartialEq, Eq)]
pub enum NotaElem {
    Text(NotaText),
    Space(NotaSpace),
    Parbreak(NotaParbreak),
    Strong(NotaStrong),
    List(NotaListItem),
}

/// A whole template, from `@{` to its closing brace.
#[derive(Debug, PartialEq, Eq)]
pub struct NotaTemplate {
    pub span: Span,
    pub elems: Vec<NotaElem>,
}

/// The model of a [`NotaElem`]: the same tree over sequences of characters.
pub ghost enum Elem {
    Text { span: Span, value: Seq<char> },
    Space { span: Span, has_newline: bool },
    Parbreak { span: Span },
    Strong { span: Span, elems: Seq<Elem> },
    List { span: Span, elems: Seq<Elem> },
}

impl Elem {
    pub open spec fn span(self) -> Span {
        match self {
            Elem::Text { span, .. } => span,
            Elem::Space { span, .. } => span,
            Elem::Parbreak { span } => span,
            Elem::Strong { span, .. } => span,
            Elem::List { span, .. } => span,
        }
    }
}

/// The models of a sequence of elements, in order.
pub open spec fn elems_view(v: Seq<NotaElem>) -> Seq<Elem>
    decreases v,
{
    Seq::new(v.len(), |i: int| if 0 <= i < v.len() { v[i].view() } else { Elem::Parbreak { span: Span { lo: 0, hi: 0 } } })
}

impl NotaElem {
    pub open spec fn view(self) -> Elem
        decreases self,
    {
        match self {
            NotaElem::Text(t) => Elem::Text { span: t.span, value: atom_text(t.value) },
            NotaElem::Space(s) => Elem::Space { span: s.span, has_newline: s.has_newline },
            NotaElem::Parbreak(p) => Elem::Parbreak { span: p.span },
            NotaElem::Strong(s) => Elem::Strong { span: s.span, elems: elems_view(s.elems@) },
            NotaElem::List(l) => Elem::List { span: l.span, elems: elems_view(l.elems@) },
        }
    }
}

} // verus!
