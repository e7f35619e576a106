//! The tokens of markup, and the modes that a tokenizer can be in.
use crate::atom::atom_text;
use swc_atoms::Atom;
use vstd::prelude::*;

verus! {

/// What kind of tokens to emit.
#[derive(Debug, Copy, Clone, Eq, PartialEq, Structural)]
pub enum NotaTokenContext {
    /// Text and markup.
    Markup,
    /// Math atoms, operators, etc.
    Math,
    /// Keywords, literals and operators.
    Code,
}

/// One entry of the mode stack that the host tokenizer and the markup tokenizer share.
#[derive(Debug, Copy, Clone, Eq, PartialEq, Structural)]
pub enum TokenContext {
    /// The host language's own rules are active.
    Host,
    /// One of the markup modes is active.
    Nota(NotaTokenContext),
}

/// A token of markup.
#[derive(Debug, PartialEq, Eq)]
pub enum NotaToken {
    Space { newline: bool },
    Parbreak,
    Text { value: Atom },
    Star,
    ListMarker,
    RightBrace,
    Eof,
}

/// What the tokenizer hands to the host: a markup token, or the opening `@{`.
#[derive(Debug, PartialEq, Eq)]
pub enum Token {
    Nota(NotaToken),
    TemplateOpen,
}

/// The model of a [`NotaToken`].
pub ghost enum Tok {
    Space { newline: bool },
    Parbreak,
    Text { value: Seq<char> },
    Star,
    ListMarker,
    RightBrace,
    Eof,
}

impl NotaToken {
    pub open spec fn view(self) -> Tok {
        match self {
            NotaToken::Space { newline } => Tok::Space { newline },
            NotaToken::Parbreak => Tok::Parbreak,
            NotaToken::Text { value } => Tok::Text { value: atom_text(value) },
            NotaToken::Star => Tok::Star,
            NotaToken::ListMarker => Tok::ListMarker,
            NotaToken::RightBrace => Tok::RightBrace,
            NotaToken::Eof => Tok::Eof,
        }
    }
}

/// Why tokenizing failed.
#[derive(Debug, Copy, Clone, Eq, PartialEq, Structural)]
pub enum LexError {
    /// The active mode has no tokenizing rules yet.
    UnsupportedMode { mode: NotaTokenContext, pos: usize },
}

} // verus!
