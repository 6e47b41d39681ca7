//! Messages and what hangs on them.
use vstd::prelude::*;

use crate::types::ids::{MessageId, PlatformId, SpaceId, TopicId, UserId};
use crate::types::timestamp::Timestamp;

verus! {

/// A chat message.
#[derive(Debug)]
pub struct Message {
    pub id: MessageId,
    pub space_id: SpaceId,
    pub sender: UserId,
    pub timestamp: Timestamp,
    pub edit_timestamp: Option<Timestamp>,
    pub text: String,
    pub annotations: Vec<Annotation>,
    pub reactions: Vec<Reaction>,
    pub thread_id: Option<TopicId>,
    pub message_type: MessageType,
    pub platform: PlatformId,
}

/// Who wrote a message: a user, or the service itself.
#[derive(Copy, Clone, Debug, PartialEq, Eq, Structural)]
pub enum MessageType {
    User,
    System,
}

/// A mark on a stretch of the text of a message.
#[derive(Debug)]
pub struct Annotation {
    pub kind: AnnotationKind,
    pub start: u32,
    pub length: u32,
}

/// What a mark on the text means.
#[derive(Debug)]
pub enum AnnotationKind {
    Bold,
    Italic,
    Strikethrough,
    Code,
    CodeBlock,
    Link { url: String },
    UserMention { user_id: UserId },
}

/// An emoji that users have put on a message.
#[derive(Debug)]
pub struct Reaction {
    pub emoji: Emoji,
    pub count: u32,
    pub includes_self: bool,
}

/// An emoji: one of Unicode, or one of the service's own.
#[derive(Debug)]
pub enum Emoji {
    Unicode(String),
    Custom { id: String, shortcode: String },
}

// ───────────────────────── models ─────────────────────────

/// The mathematical form of an [`Emoji`].
pub ghost enum EmojiV {
    Unicode(Seq<char>),
    Custom { id: Seq<char>, shortcode: Seq<char> },
}

/// The mathematical form of a [`Reaction`].
pub ghost struct ReactionV {
    pub emoji: EmojiV,
    pub count: u32,
    pub includes_self: bool,
}

/// The mathematical form of an [`AnnotationKind`].
pub ghost enum AnnotationKindV {
    Bold,
    Italic,
    Strikethrough,
    Code,
    CodeBlock,
    Link { url: Seq<char> },
    UserMention { user_id: UserId },
}

/// The mathematical form of an [`Annotation`].
pub ghost struct AnnotationV {
    pub kind: AnnotationKindV,
    pub start: u32,
    pub length: u32,
}

/// The mathematical form of a [`Message`].
pub ghost struct MessageV {
    pub id: MessageId,
    pub space_id: SpaceId,
    pub sender: UserId,
    pub timestamp: Timestamp,
    pub edit_timestamp: Option<Timestamp>,
    pub text: Seq<char>,
    pub annotations: Seq<AnnotationV>,
    pub reactions: Seq<ReactionV>,
    pub thread_id: Option<TopicId>,
    pub message_type: MessageType,
    pub platform: PlatformId,
}

impl View for Emoji {
    type V = EmojiV;

    open spec fn view(&self) -> EmojiV {
        match *self {
            Emoji::Unicode(s) => EmojiV::Unicode(s@),
            Emoji::Custom { id, shortcode } => EmojiV::Custom { id: id@, shortcode: shortcode@ },
        }
    }
}

impl View for Reaction {
    type V = ReactionV;

    open spec fn view(&self) -> ReactionV {
        ReactionV { emoji: self.emoji@, count: self.count, includes_self: self.includes_self }
    }
}

impl View for AnnotationKind {
    type V = AnnotationKindV;

    open spec fn view(&self) -> AnnotationKindV {
        match *self {
            AnnotationKind::Bold => AnnotationKindV::Bold,
            AnnotationKind::Italic => AnnotationKindV::Italic,
            AnnotationKind::Strikethrough => AnnotationKindV::Strikethrough,
            AnnotationKind::Code => AnnotationKindV::Code,
            AnnotationKind::CodeBlock => AnnotationKindV::CodeBlock,
            AnnotationKind::Link { url } => AnnotationKindV::Link { url: url@ },
            AnnotationKind::UserMention { user_id } => AnnotationKindV::UserMention { user_id },
        }
    }
}

impl View for Annotation {
    type V = AnnotationV;

    open spec fn view(&self) -> AnnotationV {
        AnnotationV { kind: self.kind@, start: self.start, length: self.length }
    }
}

pub open spec fn annotations(v: Seq<Annotation>) -> Seq<AnnotationV> {
    v.map_values(|a: Annotation| a@)
}

pub open spec fn reactions(v: Seq<Reaction>) -> Seq<ReactionV> {
    v.map_values(|r: Reaction| r@)
}

pub open spec fn messages(v: Seq<Message>) -> Seq<MessageV> {
    v.map_values(|m: Message| m@)
}

impl View for Message {
    type V = MessageV;

    open spec fn view(&self) -> MessageV {
        MessageV {
            id: self.id,
            space_id: self.space_id,
            sender: self.sender,
            timestamp: self.timestamp,
            edit_timestamp: self.edit_timestamp,
            text: self.text@,
            annotations: annotations(self.annotations@),
            reactions: reactions(self.reactions@),
            thread_id: self.thread_id,
            message_type: self.message_type,
            platform: self.platform,
        }
    }
}

} // verus!
