//! Lowering: a parsed template as a flat list of strings, one for each of its
//! top-level elements.
use crate::ast::{elems_view, Elem, NotaElem, NotaTemplate};
use crate::atom::{atom_as_str, atom_new, atom_text};
use crate::buffer::{
    buffer_into_string, buffer_new, buffer_push, buffer_push_str, buffer_text, TextBuffer,
};
use swc_atoms::Atom;
use vstd::prelude::*;

verus! {

/// The text that an element stands for: text as it is, a space or a newline for
/// whitespace, two newlines for a paragraph break, an emphasis span between two
/// `*`, and a list item behind its `-`.
pub open spec fn render(e: Elem) -> Seq<char>
    decreases e, 0nat,
{
    match e {
        Elem::Text { value, .. } => value,
        Elem::Space { has_newline, .. } => if has_newline {
            seq!['\n']
        } else {
            seq![' ']
        },
        Elem::Parbreak { .. } => seq!['\n', '\n'],
        Elem::Strong { elems, .. } => seq!['*'] + render_first(elems, elems.len()) + seq!['*'],
        Elem::List { elems, .. } => seq!['-'] + render_first(elems, elems.len()),
    }
}

/// The texts of the first `n` elements of `es`, one after the other.
pub open spec fn render_first(es: Seq<Elem>, n: nat) -> Seq<char>
    decreases es, n,
{
    if n == 0 || n > es.len() {
        Seq::empty()
    } else {
        render_first(es, (n - 1) as nat) + render(es[n - 1])
    }
}

/// The texts of all elements of `es`, one after the other.
pub open spec fn render_all(es: Seq<Elem>) -> Seq<char> {
    render_first(es, es.len())
}

/// Puts the text of `elem` at the end of `out`.
fn render_into(elem: &NotaElem, out: &mut TextBuffer)
    ensures
        buffer_text(*final(out)) == buffer_text(*old(out)) + render(elem@),
    decreases elem, 0nat,
{
    match elem {
        NotaElem::Text(t) => {
            buffer_push_str(out, atom_as_str(&t.value));
        },
        NotaElem::Space(s) => {
            if s.has_newline {
                buffer_push(out, '\n');
            } else {
                buffer_push(out, ' ');
            }
            assert(buffer_text(*out) =~= buffer_text(*old(out)) + render(elem@));
        },
        NotaElem::Parbreak(_) => {
            buffer_push(out, '\n');
            buffer_push(out, '\n');
            assert(buffer_text(*out) =~= buffer_text(*old(out)) + render(elem@));
        },
        NotaElem::Strong(s) => {
            buffer_push(out, '*');
            render_all_into(&s.elems, out);
            buffer_push(out, '*');
            assert(buffer_text(*out) =~= buffer_text(*old(out)) + render(elem@));
        },
        NotaElem::List(l) => {
            buffer_push(out, '-');
            render_all_into(&l.elems, out);
            assert(buffer_text(*out) =~= buffer_text(*old(out)) + render(elem@));
        },
    }
}

/// Puts the texts of `elems`, in order, at the end of `out`.
fn render_all_into(elems: &Vec<NotaElem>, out: &mut TextBuffer)
    ensures
        buffer_text(*final(out)) == buffer_text(*old(out)) + render_all(elems_view(elems@)),
    decreases elems, 1nat,
{
    let ghost es = elems_view(elems@);
    let mut i: usize = 0;
    assert(buffer_text(*out) =~= buffer_text(*old(out)) + render_first(es, 0));
    while i < elems.len()
        invariant
            i <= elems.len(),
            es == elems_view(elems@),
            buffer_text(*out) == buffer_text(*old(out)) + render_first(es, i as nat),
        decreases elems.len() - i,
    {
        render_into(&elems[i], out);
        assert(buffer_text(*out) =~= buffer_text(*old(out)) + render_first(es, (i + 1) as nat));
        i = i + 1;
    }
}

/// The text that `elem` stands for.
pub fn to_string(elem: &NotaElem) -> (text: String)
    ensures
        text@ == render(elem@),
{
    let mut out = buffer_new();
    render_into(elem, &mut out);
    assert(buffer_text(out) =~= render(elem@));
    buffer_into_string(out)
}

/// True when `lits` holds the texts of the elements `es`, one string for each
/// element, in order.
pub open spec fn lowered(es: Seq<Elem>, lits: Seq<Atom>) -> bool {
    &&& lits.len() == es.len()
    &&& forall|i: int| 0 <= i < es.len() ==> atom_text(#[trigger] lits[i]) == render(es[i])
}

/// Lowers a template to the strings of a literal array: one string for each
/// top-level element, which holds the text of that element and of all that is
/// nested in it.
pub fn nota_template_to_expr(tpl: &NotaTemplate) -> (lits: Vec<Atom>)
    ensures
        lowered(elems_view(tpl.elems@), lits@),
{
    let mut lits: Vec<Atom> = Vec::new();
    let mut i: usize = 0;
    while i < tpl.elems.len()
        invariant
            i <= tpl.elems.len(),
            lowered(elems_view(tpl.elems@).take(i as int), lits@),
        decreases tpl.elems.len() - i,
    {
        let text = to_string(&tpl.elems[i]);
        lits.push(atom_new(text.as_str()));
        i = i + 1;
    }
    assert(elems_view(tpl.elems@).take(i as int) =~= elems_view(tpl.elems@));
    lits
}

} // verus!
