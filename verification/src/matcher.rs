//! The matching phase: deciding, for one import statement, whether it
//! references an own-project top-level module without the qualifier, and
//! building the diagnostic with its suggested textual rewrite.

use vstd::prelude::*;
use vstd::string::StringExecFns;
use crate::qualifier;
use crate::roots::{lemma_wf_excludes_qualifier, roots_of, ModuleRootSet, SourceLocation};

verus! {

/// The textual range of an import statement inside its source file.
#[derive(Clone, Copy, PartialEq, Eq, Structural, Debug)]
pub struct Span {
    pub lo: usize,
    pub hi: usize,
}

/// One import declaration found in source: the first identifier of its path,
/// its span, and the literal text of that span, absent when the span has no
/// retrievable text (synthesized code, for instance).
pub struct ImportStatement {
    pub leading: String,
    pub span: Span,
    pub text: Option<String>,
}

/// Whether a suggested fix may be applied without human review.
#[derive(Clone, Copy, PartialEq, Eq, Structural, Debug)]
pub enum Applicability {
    MachineApplicable,
    MaybeIncorrect,
}

/// One emitted finding: the flagged span, a fixed explanatory message, the
/// suggested replacement text, and whether the fix is safe to apply
/// automatically.
pub struct Diagnostic {
    pub span: Span,
    pub message: String,
    pub suggestion: String,
    pub applicability: Applicability,
}

/// The fixed message every finding carries.
pub open spec fn message_text() -> Seq<char> {
    "this import is ambiguous as to its origin"@
}

/// The suggested replacement: the qualifier, the path separator, then the
/// span's original text unchanged.
pub open spec fn suggested_fix(text: Seq<char>) -> Seq<char> {
    qualifier() + "::"@ + text
}

/// Whether a diagnostic is produced for an import: its leading segment names
/// a collected module root and its span's text can be retrieved.
pub open spec fn emits(m: Set<Seq<char>>, import: ImportStatement) -> bool {
    m.contains(import.leading@) && import.text is Some
}

/// Decides one import statement against the collected module roots: produces
/// the diagnostic exactly when the import's leading segment names a collected
/// root and the span's text is available, and then the suggestion is the
/// qualifier prepended to the unaltered original text.
pub fn check_import(set: &ModuleRootSet, import: &ImportStatement) -> (r: Option<Diagnostic>)
    ensures
        r is Some <==> emits(set@, *import),
        match r {
            Some(d) => {
                &&& d.span == import.span
                &&& d.message@ == message_text()
                &&& match import.text {
                    Some(t) => d.suggestion@ == suggested_fix(t@),
                    None => false,
                }
                &&& d.applicability == Applicability::MachineApplicable
            },
            None => true,
        },
{
    if !set.contains(&import.leading) {
        return None;
    }
    match &import.text {
        None => None,
        Some(t) => {
            let mut suggestion: String = String::from_str("crate::");
            suggestion.append(t.as_str());
            proof {
                reveal_strlit("crate::");
                reveal_strlit("crate");
                reveal_strlit("::");
                assert("crate::"@ =~= qualifier() + "::"@);
            }
            Some(
                Diagnostic {
                    span: import.span,
                    message: String::from_str("this import is ambiguous as to its origin"),
                    suggestion,
                    applicability: Applicability::MachineApplicable,
                },
            )
        },
    }
}

/// A diagnostic is produced for an import exactly when its leading segment
/// names a collected module root, that segment is not already the qualifier,
/// and the span's text is available.
pub proof fn lemma_flagged_iff(set: ModuleRootSet, import: ImportStatement)
    requires
        set.wf(),
    ensures
        emits(set@, import) <==> {
            &&& set@.contains(import.leading@)
            &&& import.leading@ != qualifier()
            &&& import.text is Some
        },
{
    lemma_wf_excludes_qualifier(set);
}

/// Applying the suggested fix once turns the import's leading segment into
/// the qualifier, and such an import is never flagged again.
pub proof fn lemma_fix_not_reflagged(set: ModuleRootSet, import: ImportStatement)
    requires
        set.wf(),
        import.leading@ == qualifier(),
    ensures
        !emits(set@, import),
{
    lemma_wf_excludes_qualifier(set);
}

/// An unresolvable source root yields an empty set of module roots, and no
/// import whatsoever is then flagged.
pub proof fn lemma_unresolved_root_flags_nothing(
    files: Seq<SourceLocation>,
    import: ImportStatement,
)
    ensures
        roots_of(None, files) == Set::<Seq<char>>::empty(),
        !emits(roots_of(None, files), import),
{
}

} // verus!
