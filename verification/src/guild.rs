//! Guild-level records from the user's settings.
use crate::ids::Id;
use crate::marker::{EmojiMarker, GuildMarker};
use vstd::prelude::*;

verus! {

/// One entry of the user's `guild_folders` setting. A folder without an id and
/// with a single guild is an ungrouped guild (Discord stores those as folders
/// only for ordering); real folders carry an id, an optional name and an
/// optional RGB color.
#[derive(Clone, Debug, PartialEq, Eq)]
pub struct GuildFolder {
    pub id: Option<u64>,
    pub name: Option<String>,
    pub color: Option<u32>,
    pub guild_ids: Vec<Id<GuildMarker>>,
}

#[derive(Clone, Debug, PartialEq, Eq)]
pub struct CustomEmojiInfo {
    pub id: Id<EmojiMarker>,
    pub name: String,
    pub animated: bool,
    pub available: bool,
}

impl CustomEmojiInfo {
    /// A still, available emoji with the given id and name.
    pub fn test(id: Id<EmojiMarker>, name: &str) -> (r: CustomEmojiInfo)
        ensures
            r.id == id,
            r.name@ == name@,
            !r.animated,
            r.available,
    {
        CustomEmojiInfo { id, name: name.to_string(), animated: false, available: true }
    }
}

} // verus!
