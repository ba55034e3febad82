use vstd::prelude::*;

verus! {

/// The local record of a chapter's remote video asset.
pub struct Model {
    pub id: String,
    /// The id the video provider gave the asset.
    pub asset_id: String,
    pub playback_id: Option<String>,
    /// The chapter the asset belongs to; unique over all assets.
    pub chapter_id: String,
}

/// The records an asset refers to.
#[derive(Debug, Clone, Copy, PartialEq, Eq, Structural)]
pub enum Relation {
    Chapter,
}

impl Clone for Model {
    fn clone(&self) -> (r: Self)
        ensures
            r == *self,
    {
        Model {
            id: self.id.clone(),
            asset_id: self.asset_id.clone(),
            playback_id: crate::records::clone_opt(&self.playback_id),
            chapter_id: self.chapter_id.clone(),
        }
    }
}

} // verus!
