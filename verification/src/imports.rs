//! The guard against files that import each other in a circle.

use crate::error::{AamlError, ErrorView};
use crate::text::{same_text, texts};
use vstd::prelude::*;
use vstd::string::StringExecFns;

verus! {

/// The files that are being merged: each but the first is imported by the
/// one before it. No file is in it twice.
pub struct ImportStack {
    open: Vec<String>,
}

impl View for ImportStack {
    type V = Seq<Seq<char>>;

    closed spec fn view(&self) -> Seq<Seq<char>> {
        texts(self.open@)
    }
}

impl ImportStack {
    /// Whether no file is in the stack twice.
    pub open spec fn wf(&self) -> bool {
        self@.no_duplicates()
    }

    /// The stack while no file is being merged.
    pub fn new() -> (r: ImportStack)
        ensures
            r@ == Seq::<Seq<char>>::empty(),
            r.wf(),
    {
        let r = ImportStack { open: Vec::new() };
        assert(r@ =~= Seq::<Seq<char>>::empty());
        r
    }

    /// How many files are being merged.
    pub fn depth(&self) -> (r: usize)
        ensures
            r == self@.len(),
    {
        self.open.len()
    }

    /// Starts the merge of the file at `path`. A file that is being merged
    /// already is refused, with a parse error at line 0 that holds the
    /// path, and the stack stays as it is.
    pub fn enter(&mut self, path: &str) -> (r: Result<(), AamlError>)
        ensures
            old(self).wf() ==> final(self).wf(),
            old(self)@.contains(path@) ==> final(self)@ == old(self)@ && (r matches Err(e) && e@ == (
                ErrorView::Parse { line: 0, content: path@, details: "Import cycle"@ }
            )),
            !old(self)@.contains(path@) ==> final(self)@ == old(self)@.push(path@) && r is Ok,
    {
        let mut i: usize = 0;
        while i < self.open.len()
            invariant
                *self == *old(self),
                i <= self.open.len(),
                forall|j: int| 0 <= j < i ==> #[trigger] self@[j] != path@,
            decreases self.open.len() - i,
        {
            if same_text(self.open[i].as_str(), path) {
                assert(self@[i as int] == path@);
                return Err(AamlError::bad_arguments(path, "Import cycle"));
            }
            i += 1;
        }
        self.open.push(String::from_str(path));
        assert(self@ =~= old(self)@.push(path@));
        Ok(())
    }

    /// Ends the merge of the file that was entered last.
    pub fn leave(&mut self)
        ensures
            old(self).wf() ==> final(self).wf(),
            final(self)@ == (if old(self)@.len() > 0 {
                old(self)@.drop_last()
            } else {
                old(self)@
            }),
    {
        self.open.pop();
        assert(self@ =~= (if old(self)@.len() > 0 {
            old(self)@.drop_last()
        } else {
            old(self)@
        }));
    }
}

} // verus!
