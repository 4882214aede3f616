//! `@schema`: accepted, and without effect.

use crate::commands::{taken, Command, Pending, PendingView};
use crate::document::{Document, DocumentView};
use crate::error::{AamlError, ErrorView};
use vstd::prelude::*;

verus! {

/// The handler of `@schema`. No engine has it unless it is registered.
pub struct SchemaCommand;

impl Command for SchemaCommand {
    open spec fn label(&self) -> Seq<char> {
        "schema"@
    }

    open spec fn allows(
        &self,
        before: DocumentView,
        args: Seq<char>,
        after: DocumentView,
        r: Result<PendingView, ErrorView>,
    ) -> bool {
        after == before && r == Ok::<PendingView, ErrorView>(PendingView::Nothing)
    }

    fn name(&self) -> (r: &str) {
        "schema"
    }

    fn execute(&self, doc: &mut Document, args: &str) -> (r: Result<Pending, AamlError>)
        ensures
            final(doc)@ == old(doc)@,
            taken(r) == Ok::<PendingView, ErrorView>(PendingView::Nothing),
    {
        Ok(Pending::Nothing)
    }
}

} // verus!
