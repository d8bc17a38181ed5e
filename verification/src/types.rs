use vstd::prelude::*;

verus! {

/// What a chat is, as far as the collector tells chats apart.
#[derive(Debug, Clone, Copy, PartialEq, Eq, Structural)]
pub enum ChatKind {
    /// A supergroup, or a channel where `is_channel` holds.
    Supergroup { supergroup_id: i64, is_channel: bool },
    /// A private, secret or basic group chat.
    Other,
}

/// The fields of a chat that the collector reads.
#[derive(Debug)]
pub struct ChatInfo {
    pub id: i64,
    pub title: String,
    pub kind: ChatKind,
}

/// The fields of a supergroup that the collector reads.
#[derive(Debug)]
pub struct SupergroupInfo {
    pub username: String,
}

/// The fields of the full information on a supergroup that the collector
/// reads.
#[derive(Debug)]
pub struct SupergroupDetails {
    pub description: String,
}

/// A channel as the collector records it.
#[derive(Debug)]
pub struct Channel {
    pub chat_id: i64,
    pub title: String,
    pub description: String,
    pub username: String,
}

impl Channel {
    /// The channel that a chat, its supergroup and the supergroup's full
    /// information describe.
    pub fn convert(
        chat: &ChatInfo,
        supergroup: &SupergroupInfo,
        supergroup_full_info: &SupergroupDetails,
    ) -> (c: Self)
        ensures
            c.chat_id == chat.id,
            c.title@ == chat.title@,
            c.description@ == supergroup_full_info.description@,
            c.username@ == supergroup.username@,
    {
        Channel {
            chat_id: chat.id,
            title: chat.title.clone(),
            description: supergroup_full_info.description.clone(),
            username: supergroup.username.clone(),
        }
    }
}

} // verus!
