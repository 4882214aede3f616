//! `@import <path>`: merge another file at this point.

use crate::commands::{taken, Command, Pending, PendingView};
use crate::document::{Document, DocumentView};
use crate::error::{AamlError, ErrorView};
use crate::text::{trim, trimmed};
use vstd::prelude::*;
use vstd::string::StringExecFns;

verus! {

/// The handler of `@import`. It reads no file: it checks the path and
/// hands it to the caller, who merges the file and goes on.
pub struct ImportCommand;

/// What `@import` does with the arguments `args`. The path is `args`
/// without the white space around it. An empty path is a parse error at
/// line 0, which holds the arguments; any other is handed to the caller.
/// The document stays as it is.
pub open spec fn import_directive(doc: DocumentView, args: Seq<char>) -> (
    DocumentView,
    Result<PendingView, ErrorView>,
) {
    let path = trimmed(args);
    if path.len() == 0 {
        (
            doc,
            Err(ErrorView::Parse { line: 0, content: args, details: "Import path cannot be empty"@ }),
        )
    } else {
        (doc, Ok(PendingView::Import(path)))
    }
}

impl Command for ImportCommand {
    open spec fn label(&self) -> Seq<char> {
        "import"@
    }

    open spec fn allows(
        &self,
        before: DocumentView,
        args: Seq<char>,
        after: DocumentView,
        r: Result<PendingView, ErrorView>,
    ) -> bool {
        after == import_directive(before, args).0 && r == import_directive(before, args).1
    }

    fn name(&self) -> (r: &str) {
        "import"
    }

    fn execute(&self, doc: &mut Document, args: &str) -> (r: Result<Pending, AamlError>)
        ensures
            final(doc)@ == import_directive(old(doc)@, args@).0,
            taken(r) == import_directive(old(doc)@, args@).1,
    {
        let path = trim(args);
        if path.unicode_len() == 0 {
            return Err(AamlError::bad_arguments(args, "Import path cannot be empty"));
        }
        Ok(Pending::Import(String::from_str(path)))
    }
}

} // verus!
