//! The chat transport's data shapes.
//!
//! Plain declarations of the requests the pipeline sends and the updates it
//! receives. Encoding them onto the wire, and the HTTP client that carries
//! them, live outside the library; the orchestration layer only constructs
//! and inspects these values.

use vstd::prelude::*;

verus! {

/// The longest message text the transport accepts.
pub const MAX_MSG_LEN: usize = 4096;

#[derive(Debug)]
pub struct SetWebhook<'url, 'secret_token> {
    pub url: &'url str,
    pub drop_pending_updates: bool,
    pub secret_token: Option<&'secret_token str>,
}

#[derive(Debug)]
pub struct BotCommand {
    pub command: &'static str,
    pub description: &'static str,
}

#[derive(Debug)]
pub struct SetMyCommands<'commands, 'language_code> {
    pub commands: &'commands [BotCommand],
    pub language_code: Option<&'language_code str>,
}

/// One incoming update, tagged with the transport's sequence number.
#[derive(Debug)]
pub struct Update {
    pub id: u64,
    pub kind: UpdateKind,
}

impl Update {
    /// The user an update originated from, when it carries one.
    pub fn from(&self) -> (r: Option<&User>)
        ensures
            match self.kind {
                UpdateKind::Message(m) => match r {
                    Some(u) => m.from matches Some(v) && *u == v,
                    None => m.from is None,
                },
            },
    {
        match &self.kind {
            UpdateKind::Message(m) => m.from.as_ref(),
        }
    }
}

#[derive(Debug)]
pub enum UpdateKind {
    Message(Message),
}

#[derive(Debug)]
pub struct Message {
    pub id: i32,
    pub from: Option<User>,
    pub chat: Chat,
    pub kind: MessageKind,
}

#[derive(Debug)]
pub enum MessageKind {
    Common(MessageCommon),
}

#[derive(Debug)]
pub struct MessageCommon {
    pub from: Option<User>,
    pub sender_chat: Option<Chat>,
    pub media_kind: MediaKind,
}

/// What a message carries: text with its entities, or a media attachment.
#[derive(Debug)]
pub enum MediaKind {
    Text { text: String, entities: Vec<MessageEntity> },
    Audio { audio: File },
    Video { video: File },
}

#[derive(Debug)]
pub struct MessageEntity {
    pub length: usize,
    pub offset: usize,
    pub kind: MessageEntityKind,
}

#[derive(Debug)]
pub enum MessageEntityKind {
    BotCommand,
    Other,
}

/// A media attachment: the reusable destination identifier it was stored
/// under.
#[derive(Debug)]
pub struct File {
    pub id: String,
}

#[derive(Debug)]
pub struct User {
    pub id: u64,
    pub is_bot: bool,
    pub first_name: String,
    pub last_name: Option<String>,
    pub username: Option<String>,
    pub language_code: Option<String>,
}

#[derive(Debug)]
pub struct Chat {
    pub id: i64,
    pub kind: ChatKind,
}

#[derive(Debug)]
pub enum ChatKind {
    Public { title: Option<String>, kind: PublicChatKind },
    Private { username: Option<String> },
}

#[derive(Debug)]
pub enum PublicChatKind {
    Channel,
    Group,
    SuperGroup,
}

#[derive(Debug)]
pub struct SendMessage<'text> {
    pub chat_id: i64,
    pub text: &'text str,
    pub disable_web_page_preview: bool,
    pub reply_to_message_id: Option<i32>,
}

#[derive(Debug)]
pub struct SendAudio<'audio, 'caption> {
    pub chat_id: i64,
    pub audio: &'audio str,
    pub caption: &'caption str,
    pub reply_to_message_id: Option<i32>,
}

#[derive(Debug)]
pub struct SendVideo<'video, 'caption> {
    pub chat_id: i64,
    pub video: &'video str,
    pub caption: &'caption str,
    pub reply_to_message_id: Option<i32>,
}

#[derive(Debug)]
pub struct EditMessageText<'text> {
    pub chat_id: i64,
    pub message_id: i32,
    pub text: &'text str,
}

#[derive(Debug)]
pub struct DeleteMessage {
    pub chat_id: i64,
    pub message_id: i32,
}

#[derive(Debug)]
pub struct GetMe;

#[derive(Debug)]
pub struct DeleteWebhook;

} // verus!
