//! Positions and ranges as the editor counts them: lines from zero,
//! characters from zero.

use vstd::prelude::*;

verus! {

/// A position in a document as the editor sends it.
#[derive(PartialEq, Eq, Structural, Clone, Copy, Debug)]
pub struct LspPosition {
    pub line: u32,
    pub character: u32,
}

/// A range in a document as the editor sends it.
#[derive(PartialEq, Eq, Structural, Clone, Copy, Debug)]
pub struct LspRange {
    pub start: LspPosition,
    pub end: LspPosition,
}

impl LspPosition {
    pub fn new(line: u32, character: u32) -> (p: LspPosition)
        ensures
            p.line == line,
            p.character == character,
    {
        LspPosition { line, character }
    }
}

/// The range that starts and ends at the top of the document.
pub fn document_start_range() -> (r: LspRange)
    ensures
        r == (LspRange { start: LspPosition { line: 0, character: 0 }, end: LspPosition { line: 0, character: 0 } }),
{
    LspRange { start: LspPosition { line: 0, character: 0 }, end: LspPosition { line: 0, character: 0 } }
}

} // verus!
