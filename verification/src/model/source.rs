use vstd::prelude::*;

verus! {

/// What kind of thing is being captured.
#[derive(Debug, Clone, Copy, PartialEq, Eq, Structural)]
pub enum SourceKind {
    Display,
    Window,
    Region,
}

/// The name under which a source kind appears in metadata and in the frontend.
pub open spec fn kind_name(kind: SourceKind) -> Seq<char> {
    match kind {
        SourceKind::Display => "display"@,
        SourceKind::Window => "window"@,
        SourceKind::Region => "region"@,
    }
}

impl SourceKind {
    pub fn as_str(&self) -> (s: &'static str)
        ensures
            s@ == kind_name(*self),
    {
        match self {
            SourceKind::Display => "display",
            SourceKind::Window => "window",
            SourceKind::Region => "region",
        }
    }
}

/// A source as used by the capture pipeline; `rect` is `[x, y, width, height]`.
#[derive(Debug, Clone, PartialEq)]
pub struct CaptureSource {
    pub kind: SourceKind,
    pub id: String,
    pub rect: [i64; 4],
}

} // verus!
