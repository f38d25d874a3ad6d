//! The lint pass itself: an owned module-root set filled once per analyzed
//! crate, then consulted for every import item the traversal meets.

use vstd::prelude::*;
use crate::matcher::{check_import, emits, message_text, suggested_fix, Applicability, Diagnostic,
    ImportStatement};
use crate::roots::{roots_of, ModuleRootSet, SourceLocation};
use crate::paths::SourcePath;

verus! {

/// Checks that imports from the analyzed project use the `crate::` prefix:
/// first the project's own top-level module names are collected from its
/// source files, then every import whose leading segment names one of them is
/// flagged with a mechanical rewrite that prepends the prefix.
pub struct UseCratePrefixForSelfImports {
    pub mod_set: ModuleRootSet,
}

impl Default for UseCratePrefixForSelfImports {
    /// A fresh pass with an empty module-root set.
    fn default() -> (d: Self)
        ensures
            d.mod_set.wf(),
            d.mod_set@ == Set::<Seq<char>>::empty(),
    {
        UseCratePrefixForSelfImports { mod_set: ModuleRootSet::new() }
    }
}

impl UseCratePrefixForSelfImports {
    /// Runs once per analyzed crate: folds into the pass's set the top-level
    /// module name of every project-owned source file under the source root.
    /// When the root cannot be resolved, nothing is added and the whole check
    /// stays a no-op for the run.
    pub fn check_crate(&mut self, root: &Option<SourcePath>, files: &Vec<SourceLocation>)
        requires
            old(self).mod_set.wf(),
        ensures
            final(self).mod_set.wf(),
            final(self).mod_set@ == old(self).mod_set@.union(roots_of(*root, files@)),
    {
        self.mod_set.collect(root, files);
    }

    /// Runs once per import item: produces the diagnostic exactly when the
    /// import's leading segment names a collected module root and its span's
    /// text is available; the suggestion is the qualifier prepended to the
    /// unaltered original text.
    pub fn check_item(&self, import: &ImportStatement) -> (r: Option<Diagnostic>)
        ensures
            r is Some <==> emits(self.mod_set@, *import),
            match r {
                Some(d) => {
                    &&& d.span == import.span
                    &&& d.message@ == message_text()
                    &&& match import.text {
                        Some(t) => d.suggestion@ == suggested_fix(t@),
                        None => false,
                    }
                    &&& d.applicability == Applicability::MachineApplicable
                },
                None => true,
            },
    {
        check_import(&self.mod_set, import)
    }
}

} // verus!
