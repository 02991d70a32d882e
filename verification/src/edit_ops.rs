//! The code-edits tool: the structured edits the assistant proposes.

use vstd::prelude::*;
use vstd::string::*;

verus! {

/// Everything the tool is invoked with.
#[derive(Debug)]
pub struct CodeEditsToolInput {
    /// A high-level description of the code changes, as short as possible.
    pub title: String,
    /// The edits to be applied.
    pub edits: Vec<Edit>,
}

/// One proposed edit.
#[derive(Debug)]
pub struct Edit {
    /// The path to the file that this edit will change.
    pub path: String,
    /// The change that should occur at the given range of the file.
    pub operation: Operation,
}

/// The change a single edit makes. Every excerpt uniquely identifies the
/// range of the file the edit concerns.
#[derive(Debug)]
pub enum Operation {
    /// Replaces the excerpt with the new text.
    Update { old_text: String, new_text: String, description: Option<String> },
    /// Inserts the new text before the excerpt.
    InsertBefore { old_text: String, new_text: String, description: Option<String> },
    /// Inserts the new text after the excerpt.
    InsertAfter { old_text: String, new_text: String, description: Option<String> },
    /// Creates a new file with the new text.
    Create { description: Option<String>, new_text: String },
    /// Deletes the excerpt from the file.
    Delete { old_text: String },
}

/// The tool itself.
#[derive(Clone, Copy, Debug)]
pub struct CodeEditsTool;

impl CodeEditsTool {
    /// The name the tool registers under.
    pub fn name(&self) -> (r: String)
        ensures
            r@ == "zed_code_edits"@,
    {
        String::from_str("zed_code_edits")
    }
}

} // verus!
