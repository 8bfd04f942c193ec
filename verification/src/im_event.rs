//! Events of instant messengers in one shape, whatever messenger they come from.

use vstd::prelude::*;

use crate::json::{Json, Tree};
use crate::text::opt;

verus! {

/// The messenger that an event comes from.
#[derive(Clone, Copy, Debug, PartialEq, Eq, Structural)]
pub enum ImProviderType {
    Feishu,
    Other,
}

/// Where an image can be had.
#[derive(Clone, Copy, Debug, PartialEq, Eq, Structural)]
pub enum ImImageSource {
    MessageResource,
    Other,
}

/// Someone who is mentioned in a message, and the placeholder that stands for
/// them in its text.
#[derive(Debug, PartialEq, Eq)]
pub struct ImMention {
    pub key: String,
    pub open_id: Option<String>,
    pub name: Option<String>,
    pub tenant_key: Option<String>,
    pub is_bot: bool,
}

#[verifier::ext_equal]
pub struct MentionView {
    pub key: Seq<char>,
    pub open_id: Option<Seq<char>>,
    pub name: Option<Seq<char>>,
    pub tenant_key: Option<Seq<char>>,
    pub is_bot: bool,
}

impl View for ImMention {
    type V = MentionView;

    open spec fn view(&self) -> MentionView {
        MentionView {
            key: self.key@,
            open_id: opt(self.open_id),
            name: opt(self.name),
            tenant_key: opt(self.tenant_key),
            is_bot: self.is_bot,
        }
    }
}

/// The views of a list of mentions.
pub open spec fn mention_views(v: Seq<ImMention>) -> Seq<MentionView> {
    v.map_values(|m: ImMention| m@)
}

/// An image of a message.
#[derive(Debug, PartialEq, Eq)]
pub struct ImImageAttachment {
    pub file_key: String,
    pub source: ImImageSource,
    pub mime_type: Option<String>,
    pub data_base64: Option<String>,
    pub download_url: Option<String>,
    pub encrypted_query_param: Option<String>,
    pub aes_key: Option<String>,
}

#[verifier::ext_equal]
pub struct ImageView {
    pub file_key: Seq<char>,
    pub source: ImImageSource,
    pub mime_type: Option<Seq<char>>,
    pub data_base64: Option<Seq<char>>,
    pub download_url: Option<Seq<char>>,
    pub encrypted_query_param: Option<Seq<char>>,
    pub aes_key: Option<Seq<char>>,
}

impl View for ImImageAttachment {
    type V = ImageView;

    open spec fn view(&self) -> ImageView {
        ImageView {
            file_key: self.file_key@,
            source: self.source,
            mime_type: opt(self.mime_type),
            data_base64: opt(self.data_base64),
            download_url: opt(self.download_url),
            encrypted_query_param: opt(self.encrypted_query_param),
            aes_key: opt(self.aes_key),
        }
    }
}

/// The views of a list of images.
pub open spec fn image_views(v: Seq<ImImageAttachment>) -> Seq<ImageView> {
    v.map_values(|i: ImImageAttachment| i@)
}

/// A file of a message.
#[derive(Debug, PartialEq, Eq)]
pub struct ImFileAttachment {
    pub file_key: String,
    pub name: Option<String>,
    pub mime_type: Option<String>,
    pub size_bytes: Option<u64>,
    pub data_base64: Option<String>,
    pub download_url: Option<String>,
}

#[verifier::ext_equal]
pub struct FileView {
    pub file_key: Seq<char>,
    pub name: Option<Seq<char>>,
    pub mime_type: Option<Seq<char>>,
    pub size_bytes: Option<u64>,
    pub data_base64: Option<Seq<char>>,
    pub download_url: Option<Seq<char>>,
}

impl View for ImFileAttachment {
    type V = FileView;

    open spec fn view(&self) -> FileView {
        FileView {
            file_key: self.file_key@,
            name: opt(self.name),
            mime_type: opt(self.mime_type),
            size_bytes: self.size_bytes,
            data_base64: opt(self.data_base64),
            download_url: opt(self.download_url),
        }
    }
}

/// The views of a list of files.
pub open spec fn file_views(v: Seq<ImFileAttachment>) -> Seq<FileView> {
    v.map_values(|f: ImFileAttachment| f@)
}

/// Who sent something, and where.
#[derive(Debug, PartialEq, Eq)]
pub struct ImEventSource {
    pub chat_id: Option<String>,
    pub chat_type: Option<String>,
    pub user_id: Option<String>,
    pub user_name: Option<String>,
    pub sender_type: Option<String>,
    pub message_id: Option<String>,
}

#[verifier::ext_equal]
pub struct SourceView {
    pub chat_id: Option<Seq<char>>,
    pub chat_type: Option<Seq<char>>,
    pub user_id: Option<Seq<char>>,
    pub user_name: Option<Seq<char>>,
    pub sender_type: Option<Seq<char>>,
    pub message_id: Option<Seq<char>>,
}

impl View for ImEventSource {
    type V = SourceView;

    open spec fn view(&self) -> SourceView {
        SourceView {
            chat_id: opt(self.chat_id),
            chat_type: opt(self.chat_type),
            user_id: opt(self.user_id),
            user_name: opt(self.user_name),
            sender_type: opt(self.sender_type),
            message_id: opt(self.message_id),
        }
    }
}

/// What was sent.
#[derive(Debug, PartialEq, Eq)]
pub struct ImEventMessage {
    pub text: String,
    pub mentions: Vec<ImMention>,
    pub images: Vec<ImImageAttachment>,
    pub files: Vec<ImFileAttachment>,
    pub reply_to: Option<String>,
    pub raw_type: Option<String>,
    pub raw_content: Option<Json>,
    pub create_time: Option<u64>,
    pub update_time: Option<u64>,
    pub root_id: Option<String>,
    pub parent_id: Option<String>,
    pub thread_id: Option<String>,
}

#[verifier::ext_equal]
pub struct MessageView {
    pub text: Seq<char>,
    pub mentions: Seq<MentionView>,
    pub images: Seq<ImageView>,
    pub files: Seq<FileView>,
    pub reply_to: Option<Seq<char>>,
    pub raw_type: Option<Seq<char>>,
    pub raw_content: Option<Tree>,
    pub create_time: Option<u64>,
    pub update_time: Option<u64>,
    pub root_id: Option<Seq<char>>,
    pub parent_id: Option<Seq<char>>,
    pub thread_id: Option<Seq<char>>,
}

impl View for ImEventMessage {
    type V = MessageView;

    open spec fn view(&self) -> MessageView {
        MessageView {
            text: self.text@,
            mentions: mention_views(self.mentions@),
            images: image_views(self.images@),
            files: file_views(self.files@),
            reply_to: opt(self.reply_to),
            raw_type: opt(self.raw_type),
            raw_content: match self.raw_content {
                Some(c) => Some(c@),
                None => None,
            },
            create_time: self.create_time,
            update_time: self.update_time,
            root_id: opt(self.root_id),
            parent_id: opt(self.parent_id),
            thread_id: opt(self.thread_id),
        }
    }
}

/// An event of a messenger.
#[derive(Debug, PartialEq, Eq)]
pub struct ImEvent {
    pub event_id: String,
    pub provider_id: String,
    pub provider_type: ImProviderType,
    pub event_type: String,
    pub source: ImEventSource,
    pub message: Option<ImEventMessage>,
    pub received_at: u64,
    pub raw_digest: Option<String>,
}

#[verifier::ext_equal]
pub struct ImEventView {
    pub event_id: Seq<char>,
    pub provider_id: Seq<char>,
    pub provider_type: ImProviderType,
    pub event_type: Seq<char>,
    pub source: SourceView,
    pub message: Option<MessageView>,
    pub received_at: u64,
    pub raw_digest: Option<Seq<char>>,
}

impl View for ImEvent {
    type V = ImEventView;

    open spec fn view(&self) -> ImEventView {
        ImEventView {
            event_id: self.event_id@,
            provider_id: self.provider_id@,
            provider_type: self.provider_type,
            event_type: self.event_type@,
            source: self.source@,
            message: match self.message {
                Some(m) => Some(m@),
                None => None,
            },
            received_at: self.received_at,
            raw_digest: opt(self.raw_digest),
        }
    }
}

/// The view of an event that may be missing.
pub open spec fn event_view(e: Option<ImEvent>) -> Option<ImEventView> {
    match e {
        Some(e) => Some(e@),
        None => None,
    }
}

} // verus!
