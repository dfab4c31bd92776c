//! The model catalog entry as the completion engine's listing reports it.
//! The catalog is fetched once at startup by the process wrapper; the
//! runtime only selects among the entries.
use vstd::prelude::*;

verus! {

/// One selectable model: the provider-side identifier and what the
/// operator sees.
#[derive(Debug, Clone)]
pub struct ModelInfo {
    pub id: String,
    pub created_at: String,
    pub display_name: String,
    pub kind: String,
}

pub struct SpecModelInfo {
    pub id: Seq<char>,
    pub created_at: Seq<char>,
    pub display_name: Seq<char>,
    pub kind: Seq<char>,
}

impl View for ModelInfo {
    type V = SpecModelInfo;

    open spec fn view(&self) -> SpecModelInfo {
        SpecModelInfo {
            id: self.id@,
            created_at: self.created_at@,
            display_name: self.display_name@,
            kind: self.kind@,
        }
    }
}

/// The views of a catalog.
pub open spec fn model_views(s: Seq<ModelInfo>) -> Seq<SpecModelInfo> {
    s.map_values(|m: ModelInfo| m@)
}

} // verus!
