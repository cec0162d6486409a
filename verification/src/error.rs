//! The build's error taxonomy: input validation, internal consistency, and
//! archive writing. Every error names the field, id, href, or entry it is
//! about, so a failure can be diagnosed without re-running.

use vstd::prelude::*;

verus! {

#[derive(Debug, Clone, PartialEq, Eq)]
pub enum BuildError {
    /// A required metadata field is empty.
    MissingField(String),
    /// Two manifest items were assigned the same id.
    DuplicateId(String),
    /// Two manifest items were assigned the same href.
    DuplicateHref(String),
    /// The archive writer failed on the named entry.
    Archive(String, String),
}

impl BuildError {
    /// A short description, led by the offending name.
    #[verifier::rlimit(50)]
    pub fn message(&self) -> (r: String)
        ensures
            match self {
                BuildError::MissingField(f) => r@ == "missing or empty metadata field: "@ + f@,
                BuildError::DuplicateId(id) => r@ == "duplicate manifest id: "@ + id@,
                BuildError::DuplicateHref(h) => r@ == "duplicate manifest href: "@ + h@,
                BuildError::Archive(entry, detail) => r@ == "failed to write archive entry "@
                    + entry@ + ": "@ + detail@,
            },
    {
        match self {
            BuildError::MissingField(f) => {
                let mut out = "missing or empty metadata field: ".to_owned();
                out.append(f.as_str());
                out
            },
            BuildError::DuplicateId(id) => {
                let mut out = "duplicate manifest id: ".to_owned();
                out.append(id.as_str());
                out
            },
            BuildError::DuplicateHref(h) => {
                let mut out = "duplicate manifest href: ".to_owned();
                out.append(h.as_str());
                out
            },
            BuildError::Archive(entry, detail) => {
                let mut out = "failed to write archive entry ".to_owned();
                out.append(entry.as_str());
                out.append(": ");
                out.append(detail.as_str());
                proof {
                    assert(out@ =~= "failed to write archive entry "@ + entry@ + ": "@
                        + detail@);
                }
                out
            },
        }
    }
}

} // verus!
