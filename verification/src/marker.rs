//! Kind tags that keep the different Discord snowflake ids apart at the type level.
use vstd::prelude::*;

verus! {

/// A kind tag; its one value is what an id of that kind carries.
pub trait IdKind: Copy {
    fn tag() -> Self;

    /// A kind tag has a single value.
    proof fn lemma_single_value(a: Self, b: Self)
        ensures
            a == b,
    ;
}

#[derive(Clone, Copy, Debug, PartialEq, Eq, Hash, PartialOrd, Ord, Structural)]
pub struct GuildMarker;

impl IdKind for GuildMarker {
    fn tag() -> Self {
        GuildMarker
    }

    proof fn lemma_single_value(a: Self, b: Self) {
    }
}

#[derive(Clone, Copy, Debug, PartialEq, Eq, Hash, PartialOrd, Ord, Structural)]
pub struct ChannelMarker;

impl IdKind for ChannelMarker {
    fn tag() -> Self {
        ChannelMarker
    }

    proof fn lemma_single_value(a: Self, b: Self) {
    }
}

#[derive(Clone, Copy, Debug, PartialEq, Eq, Hash, PartialOrd, Ord, Structural)]
pub struct UserMarker;

impl IdKind for UserMarker {
    fn tag() -> Self {
        UserMarker
    }

    proof fn lemma_single_value(a: Self, b: Self) {
    }
}

#[derive(Clone, Copy, Debug, PartialEq, Eq, Hash, PartialOrd, Ord, Structural)]
pub struct MessageMarker;

impl IdKind for MessageMarker {
    fn tag() -> Self {
        MessageMarker
    }

    proof fn lemma_single_value(a: Self, b: Self) {
    }
}

#[derive(Clone, Copy, Debug, PartialEq, Eq, Hash, PartialOrd, Ord, Structural)]
pub struct EmojiMarker;

impl IdKind for EmojiMarker {
    fn tag() -> Self {
        EmojiMarker
    }

    proof fn lemma_single_value(a: Self, b: Self) {
    }
}

#[derive(Clone, Copy, Debug, PartialEq, Eq, Hash, PartialOrd, Ord, Structural)]
pub struct ApplicationMarker;

impl IdKind for ApplicationMarker {
    fn tag() -> Self {
        ApplicationMarker
    }

    proof fn lemma_single_value(a: Self, b: Self) {
    }
}

#[derive(Clone, Copy, Debug, PartialEq, Eq, Hash, PartialOrd, Ord, Structural)]
pub struct RoleMarker;

impl IdKind for RoleMarker {
    fn tag() -> Self {
        RoleMarker
    }

    proof fn lemma_single_value(a: Self, b: Self) {
    }
}

#[derive(Clone, Copy, Debug, PartialEq, Eq, Hash, PartialOrd, Ord, Structural)]
pub struct ForumTagMarker;

impl IdKind for ForumTagMarker {
    fn tag() -> Self {
        ForumTagMarker
    }

    proof fn lemma_single_value(a: Self, b: Self) {
    }
}

} // verus!
