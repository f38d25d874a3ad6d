//! Filesystem paths as the analysis sees them: a list of components plus an
//! absolute/relative marker, normalization against the project's source root,
//! and extraction of the top-level module name from a normalized path.

use vstd::prelude::*;
use vstd::string::StrSliceExecFns;

verus! {

/// A filesystem path, held as its ordered list of components together with a
/// marker saying whether the path is absolute.
pub struct SourcePath {
    pub absolute: bool,
    pub components: Vec<String>,
}

impl View for SourcePath {
    type V = Seq<Seq<char>>;

    open spec fn view(&self) -> Seq<Seq<char>> {
        self.components@.map_values(|c: String| c@)
    }
}

/// The length of the stem of a file name: the index of the last `.` that
/// stands at position 1 or later, or the whole length when there is no such
/// dot. A leading dot alone (a hidden file) begins no extension.
pub open spec fn stem_len(s: Seq<char>) -> int
    decreases s.len(),
{
    if s.len() <= 1 {
        s.len() as int
    } else if s[s.len() - 1] == '.' {
        s.len() - 1
    } else if stem_len(s.drop_last()) == s.len() - 1 {
        s.len() as int
    } else {
        stem_len(s.drop_last())
    }
}

/// A file name with its extension stripped: the part before the last `.` at
/// position 1 or later, or the whole name when there is no such dot.
pub open spec fn stem_of(s: Seq<char>) -> Seq<char> {
    s.subrange(0, stem_len(s))
}

/// When no `.` stands at position 1 or later, the stem is the whole name.
pub proof fn lemma_stem_len_no_dot(s: Seq<char>)
    requires
        forall|k: int| 1 <= k < s.len() ==> s[k] != '.',
    ensures
        stem_len(s) == s.len(),
    decreases s.len(),
{
    if s.len() > 1 {
        assert(s[s.len() - 1] != '.');
        assert(forall|k: int| 1 <= k < s.drop_last().len() ==> s.drop_last()[k] != '.');
        lemma_stem_len_no_dot(s.drop_last());
    }
}

/// When the last `.` at position 1 or later stands at index `j`, the stem is
/// exactly the prefix of length `j`.
pub proof fn lemma_stem_len_last_dot(s: Seq<char>, j: int)
    requires
        1 <= j < s.len(),
        s[j] == '.',
        forall|k: int| j < k < s.len() ==> s[k] != '.',
    ensures
        stem_len(s) == j,
    decreases s.len(),
{
    if j == s.len() - 1 {
    } else {
        assert(s[s.len() - 1] != '.');
        assert(s.drop_last()[j] == '.');
        assert(forall|k: int| j < k < s.drop_last().len() ==> s.drop_last()[k] != '.');
        lemma_stem_len_last_dot(s.drop_last(), j);
    }
}

/// Strips the file extension from one path component: returns the part before
/// the last `.` that stands at position 1 or later, or the whole component
/// when there is no such dot.
pub fn strip_extension(name: &str) -> (r: String)
    ensures
        r@ == stem_of(name@),
{
    let n = name.unicode_len();
    let mut i: usize = n;
    while i >= 2
        invariant
            i <= n,
            n == name@.len(),
            forall|k: int| i <= k < n ==> name@[k] != '.',
        decreases i,
    {
        if name.get_char(i - 1) == '.' {
            proof {
                lemma_stem_len_last_dot(name@, i - 1);
            }
            let stem = name.substring_char(0, i - 1);
            return stem.to_owned();
        }
        i = i - 1;
    }
    proof {
        lemma_stem_len_no_dot(name@);
        assert(name@.subrange(0, name@.len() as int) =~= name@);
    }
    name.to_owned()
}

/// The path's component list made relative to the source root: a relative
/// path stands as it is; an absolute path loses the root's leading
/// components when the root is absolute and is a prefix of it; any other
/// absolute path lies outside the root and has no normal form.
pub open spec fn normalized_rel(p: SourcePath, root: SourcePath) -> Option<Seq<Seq<char>>> {
    if !p.absolute {
        Some(p@)
    } else if root.absolute && root@.is_prefix_of(p@) {
        Some(p@.skip(root@.len() as int))
    } else {
        None
    }
}

/// The top-level module name a path contributes: the component at index 1 of
/// its normalized form, extension stripped. A path outside the root, or one
/// with fewer than two normalized components, contributes nothing.
pub open spec fn module_stem(p: SourcePath, root: SourcePath) -> Option<Seq<char>> {
    match normalized_rel(p, root) {
        Some(rel) => if rel.len() >= 2 {
            Some(stem_of(rel[1]))
        } else {
            None
        },
        None => None,
    }
}

fn is_component_prefix(root: &SourcePath, path: &SourcePath) -> (b: bool)
    ensures
        b == root@.is_prefix_of(path@),
{
    if root.components.len() > path.components.len() {
        return false;
    }
    let mut j: usize = 0;
    while j < root.components.len()
        invariant
            j <= root.components.len() <= path.components.len(),
            root@.len() == root.components@.len(),
            path@.len() == path.components@.len(),
            forall|t: int| 0 <= t < j ==> root@[t] == path@[t],
        decreases root.components.len() - j,
    {
        if !(root.components[j] == path.components[j]) {
            proof {
                assert(root@[j as int] != path@[j as int]);
                assert(!root@.is_prefix_of(path@)) by {
                    if root@.is_prefix_of(path@) {
                        assert(root@[j as int] == path@.subrange(0, root@.len() as int)[j as int]);
                    }
                }
            }
            return false;
        }
        j = j + 1;
    }
    proof {
        assert(root@ =~= path@.subrange(0, root@.len() as int));
    }
    true
}

/// The executable form of [`module_stem`]: the top-level module name that
/// `path` contributes with respect to `root`, or `None` when the path lies
/// outside the root or is too shallow to name a module.
pub fn module_root_of(path: &SourcePath, root: &SourcePath) -> (r: Option<String>)
    ensures
        match r {
            Some(s) => module_stem(*path, *root) == Some(s@),
            None => module_stem(*path, *root) is None,
        },
{
    if !path.absolute {
        if path.components.len() >= 2 {
            Some(strip_extension(path.components[1].as_str()))
        } else {
            None
        }
    } else if root.absolute && is_component_prefix(root, path) {
        let k = root.components.len();
        if path.components.len() - k >= 2 {
            proof {
                assert(path@.skip(k as int)[1] == path@[k + 1]);
            }
            Some(strip_extension(path.components[k + 1].as_str()))
        } else {
            None
        }
    } else {
        None
    }
}

} // verus!
