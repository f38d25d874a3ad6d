//! The collection phase: scanning the source locations of the analyzed
//! project and deriving the set of its own top-level module names.

use vstd::prelude::*;
use vstd::string::StringExecFns;
use crate::paths::{module_root_of, module_stem, normalized_rel, SourcePath};
use crate::qualifier;

verus! {

/// One source file seen by the analysis session: its path, and a marker
/// saying whether the file belongs to the project under analysis rather than
/// to some other unit compiled in the same session.
pub struct SourceLocation {
    pub path: SourcePath,
    pub local: bool,
}

/// The texts of a list of names.
pub open spec fn views_of(names: Seq<String>) -> Seq<Seq<char>> {
    names.map_values(|c: String| c@)
}

/// The set of the project's own top-level module names: duplicates collapse,
/// order carries no meaning, and the qualifier is never a member.
pub struct ModuleRootSet {
    pub names: Vec<String>,
}

impl View for ModuleRootSet {
    type V = Set<Seq<char>>;

    open spec fn view(&self) -> Set<Seq<char>> {
        views_of(self.names@).to_set()
    }
}

/// Membership in the set is membership among the held names' texts.
pub proof fn lemma_view_contains(s: ModuleRootSet, a: Seq<char>)
    ensures
        s@.contains(a) <==> exists|i: int| 0 <= i < s.names@.len() && s.names@[i]@ == a,
{
    let vs = views_of(s.names@);
    if s@.contains(a) {
        let i = choose|i: int| 0 <= i < vs.len() && vs[i] == a;
        assert(s.names@[i]@ == a);
    }
    if exists|i: int| 0 <= i < s.names@.len() && s.names@[i]@ == a {
        let i = choose|i: int| 0 <= i < s.names@.len() && s.names@[i]@ == a;
        assert(vs[i] == a);
        assert(vs.contains(a));
    }
}

/// The module names one location adds to the set: the stem of the second
/// component of its normalized path, for a location of the project whose path
/// lies under the root deep enough, and never the qualifier itself.
pub open spec fn root_contribution(loc: SourceLocation, root: SourcePath) -> Set<Seq<char>> {
    if loc.local {
        match module_stem(loc.path, root) {
            Some(m) => if m != qualifier() {
                Set::empty().insert(m)
            } else {
                Set::empty()
            },
            None => Set::empty(),
        }
    } else {
        Set::empty()
    }
}

/// The set of top-level module names that a resolved source root and a list
/// of source locations yield.
pub open spec fn roots_of_files(root: SourcePath, files: Seq<SourceLocation>) -> Set<Seq<char>>
    decreases files.len(),
{
    if files.len() == 0 {
        Set::empty()
    } else {
        roots_of_files(root, files.drop_last()).union(root_contribution(files.last(), root))
    }
}

/// The set of top-level module names for a whole run: empty when the source
/// root cannot be resolved, else the names the locations yield.
pub open spec fn roots_of(root: Option<SourcePath>, files: Seq<SourceLocation>) -> Set<Seq<char>> {
    match root {
        Some(r) => roots_of_files(r, files),
        None => Set::empty(),
    }
}

pub proof fn lemma_roots_of_files_push(
    root: SourcePath,
    files: Seq<SourceLocation>,
    loc: SourceLocation,
)
    ensures
        roots_of_files(root, files.push(loc)) == roots_of_files(root, files).union(
            root_contribution(loc, root),
        ),
{
    assert(files.push(loc).drop_last() =~= files);
    assert(files.push(loc).last() == loc);
}

/// A source location whose normalized relative path has fewer than two
/// components contributes no entry to the set of module roots.
pub proof fn lemma_shallow_location_contributes_nothing(
    root: SourcePath,
    files: Seq<SourceLocation>,
    loc: SourceLocation,
)
    requires
        match normalized_rel(loc.path, root) {
            Some(rel) => rel.len() < 2,
            None => true,
        },
    ensures
        roots_of_files(root, files.push(loc)) == roots_of_files(root, files),
{
    lemma_roots_of_files_push(root, files, loc);
    assert(root_contribution(loc, root) =~= Set::<Seq<char>>::empty());
    assert(roots_of_files(root, files).union(Set::empty()) =~= roots_of_files(root, files));
}

impl ModuleRootSet {
    /// The set holds each name once and never holds the qualifier.
    pub open spec fn wf(&self) -> bool {
        &&& forall|i: int, j: int|
            0 <= i < j < self.names@.len() ==> self.names@[i]@ != self.names@[j]@
        &&& forall|i: int| 0 <= i < self.names@.len() ==> self.names@[i]@ != qualifier()
    }

    pub fn new() -> (r: ModuleRootSet)
        ensures
            r.wf(),
            r@ == Set::<Seq<char>>::empty(),
    {
        let r = ModuleRootSet { names: Vec::new() };
        proof {
            assert(r@ =~= Set::<Seq<char>>::empty()) by {
                assert(forall|a: Seq<char>| !views_of(r.names@).contains(a));
            }
        }
        r
    }

    /// Membership in the set, by the name's text.
    pub fn contains(&self, name: &String) -> (b: bool)
        ensures
            b == self@.contains(name@),
    {
        let mut k: usize = 0;
        while k < self.names.len()
            invariant
                k <= self.names.len(),
                forall|t: int| 0 <= t < k ==> self.names@[t]@ != name@,
            decreases self.names.len() - k,
        {
            if self.names[k] == *name {
                proof {
                    lemma_view_contains(*self, name@);
                }
                return true;
            }
            k = k + 1;
        }
        proof {
            lemma_view_contains(*self, name@);
        }
        false
    }

    /// Adds one module name: the qualifier is skipped, a name already present
    /// collapses, any other name joins the set.
    pub fn insert(&mut self, name: String)
        requires
            old(self).wf(),
        ensures
            final(self).wf(),
            final(self)@ == (if name@ == qualifier() {
                old(self)@
            } else {
                old(self)@.insert(name@)
            }),
    {
        let q: String = String::from_str("crate");
        if name == q {
            return;
        }
        if self.contains(&name) {
            proof {
                assert(old(self)@.insert(name@) =~= old(self)@);
            }
            return;
        }
        proof {
            lemma_view_contains(*old(self), name@);
        }
        self.names.push(name);
        proof {
            let oldnames = old(self).names@;
            assert(self.names@ =~= oldnames.push(name));
            assert forall|a: Seq<char>|
                #[trigger] self@.contains(a) <==> (old(self)@.contains(a) || a == name@) by {
                lemma_view_contains(*self, a);
                lemma_view_contains(*old(self), a);
                if exists|i: int| 0 <= i < self.names@.len() && self.names@[i]@ == a {
                    let i = choose|i: int| 0 <= i < self.names@.len() && self.names@[i]@ == a;
                    if i < oldnames.len() {
                        assert(oldnames[i]@ == a);
                    } else {
                        assert(a == name@);
                    }
                }
                if exists|i: int| 0 <= i < oldnames.len() && oldnames[i]@ == a {
                    let i = choose|i: int| 0 <= i < oldnames.len() && oldnames[i]@ == a;
                    assert(self.names@[i]@ == a);
                }
                if a == name@ {
                    assert(self.names@[oldnames.len() as int]@ == a);
                }
            }
            assert(self@ =~= old(self)@.insert(name@));
            assert(forall|i: int|
                0 <= i < oldnames.len() ==> self.names@[i]@ == oldnames[i]@);
            assert(self.names@[oldnames.len() as int]@ == name@);
        }
    }

    /// The collection phase: folds every location's contribution into the
    /// set. A run whose source root is unresolved adds nothing at all.
    pub fn collect(&mut self, root: &Option<SourcePath>, files: &Vec<SourceLocation>)
        requires
            old(self).wf(),
        ensures
            final(self).wf(),
            final(self)@ == old(self)@.union(roots_of(*root, files@)),
    {
        match root {
            None => {
                proof {
                    assert(old(self)@.union(Set::<Seq<char>>::empty()) =~= old(self)@);
                }
            },
            Some(rootp) => {
                let mut idx: usize = 0;
                while idx < files.len()
                    invariant
                        idx <= files.len(),
                        self.wf(),
                        self@ == old(self)@.union(roots_of_files(*rootp, files@.take(idx as int))),
                    decreases files.len() - idx,
                {
                    let loc = &files[idx];
                    if loc.local {
                        match module_root_of(&loc.path, rootp) {
                            Some(stem) => {
                                proof {
                                    if stem@ == qualifier() {
                                        assert(root_contribution(files@[idx as int], *rootp)
                                            =~= Set::<Seq<char>>::empty());
                                    } else {
                                        assert(root_contribution(files@[idx as int], *rootp)
                                            =~= Set::empty().insert(stem@));
                                    }
                                }
                                self.insert(stem);
                            },
                            None => {
                                proof {
                                    assert(root_contribution(files@[idx as int], *rootp)
                                        =~= Set::<Seq<char>>::empty());
                                }
                            },
                        }
                    } else {
                        proof {
                            assert(root_contribution(files@[idx as int], *rootp)
                                =~= Set::<Seq<char>>::empty());
                        }
                    }
                    proof {
                        assert(files@.take(idx as int + 1) =~= files@.take(idx as int).push(
                            files@[idx as int],
                        ));
                        lemma_roots_of_files_push(
                            *rootp,
                            files@.take(idx as int),
                            files@[idx as int],
                        );
                        assert(self@ =~= old(self)@.union(
                            roots_of_files(*rootp, files@.take(idx as int + 1)),
                        ));
                    }
                    idx = idx + 1;
                }
                proof {
                    assert(files@.take(files@.len() as int) =~= files@);
                }
            },
        }
    }
}

/// One whole collection run: the set of top-level module names that the given
/// source root and source locations yield.
pub fn collect_module_roots(root: &Option<SourcePath>, files: &Vec<SourceLocation>) -> (r:
    ModuleRootSet)
    ensures
        r.wf(),
        r@ == roots_of(*root, files@),
{
    let mut r = ModuleRootSet::new();
    r.collect(root, files);
    proof {
        assert(Set::<Seq<char>>::empty().union(roots_of(*root, files@)) =~= roots_of(
            *root,
            files@,
        ));
    }
    r
}

/// A well-formed set never holds the qualifier.
pub proof fn lemma_wf_excludes_qualifier(s: ModuleRootSet)
    requires
        s.wf(),
    ensures
        !s@.contains(qualifier()),
{
    lemma_view_contains(s, qualifier());
}

} // verus!
