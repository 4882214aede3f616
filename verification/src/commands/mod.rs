//! Directives: lines that start with `@` and run a handler.

pub mod import;
pub mod schema;
pub mod typecm;

use crate::document::{Document, DocumentView};
use crate::error::{AamlError, ErrorView};
use vstd::prelude::*;

verus! {

/// What is left to the caller once a line has been taken in.
#[derive(Debug)]
pub enum Pending {
    /// Nothing: the line is done with.
    Nothing,
    /// The file at this path is to be merged before the next line is.
    Import(String),
}

/// A [`Pending`] with its path as a character sequence.
pub enum PendingView {
    Nothing,
    Import(Seq<char>),
}

impl View for Pending {
    type V = PendingView;

    open spec fn view(&self) -> PendingView {
        match self {
            Pending::Nothing => PendingView::Nothing,
            Pending::Import(path) => PendingView::Import(path@),
        }
    }
}

/// The result of a line, by its views.
pub open spec fn taken(r: Result<Pending, AamlError>) -> Result<PendingView, ErrorView> {
    match r {
        Ok(p) => Ok(p@),
        Err(e) => Err(e@),
    }
}

/// The handler of a directive. It is given the document and the text that
/// follows the directive's name. What it may do with them it says itself,
/// in `allows`; the engine promises of a handler what the handler allows.
pub trait Command: Send + Sync {
    /// The name that the directive is written with, behind `@`. A handler
    /// that is written without proof need not state it: its label is then
    /// a text of which nothing is known but that `name` gives it.
    closed spec fn label(&self) -> Seq<char> {
        arbitrary()
    }

    /// Whether the handler, given the document `before` and the arguments
    /// `args`, may leave the document `after` and return `r`. A handler
    /// that is written without proof need not state it: everything is
    /// allowed to it.
    open spec fn allows(
        &self,
        before: DocumentView,
        args: Seq<char>,
        after: DocumentView,
        r: Result<PendingView, ErrorView>,
    ) -> bool {
        true
    }

    /// The name that the directive is written with, behind `@`.
    fn name(&self) -> (r: &str)
        ensures
            r@ == self.label(),
    ;

    /// Runs the directive on `doc`, with the text `args` that follows its
    /// name.
    fn execute(&self, doc: &mut Document, args: &str) -> (r: Result<Pending, AamlError>)
        ensures
            self.allows(old(doc)@, args@, final(doc)@, taken(r)),
    ;
}

} // verus!
