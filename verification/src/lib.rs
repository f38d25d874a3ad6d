//! A static-analysis check over a project's source tree: it discovers the
//! project's own top-level module names from the set of analyzed source files,
//! then flags import statements whose leading path segment names one of those
//! modules without the explicit `crate::` qualifier, and proposes the purely
//! textual rewrite that adds the qualifier.

use vstd::prelude::*;

pub mod lint;
pub mod matcher;
pub mod paths;
pub mod roots;

verus! {

/// The self-reference qualifier: the path prefix a project's own code uses to
/// denote "rooted at this project's own module tree". It is never itself a
/// top-level module name, so it is never inserted into the collected set.
pub open spec fn qualifier() -> Seq<char> {
    "crate"@
}

} // verus!
