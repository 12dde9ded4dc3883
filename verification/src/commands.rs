//! Values that describe the user's requests to the backend.
use crate::ids::Id;
use crate::marker::EmojiMarker;
use crate::presence::{emoji_image_url, emoji_image_url_string};
use crate::text::push_str;
use std::path::{Path, PathBuf};
use vstd::prelude::*;

verus! {

pub const MAX_UPLOAD_FILE_BYTES: u64 = 10485760;

pub const MAX_UPLOAD_TOTAL_BYTES: u64 = 26214400;

pub const MAX_UPLOAD_ATTACHMENT_COUNT: usize = 10;

#[verifier::external_type_specification]
#[verifier::external_body]
pub struct ExPathBuf(PathBuf);

#[verifier::external_type_specification]
#[verifier::external_body]
pub struct ExPath(Path);

/// `PathBuf::clone` gives a path equal to the one cloned.
pub assume_specification[ <PathBuf as Clone>::clone ](path: &PathBuf) -> (r: PathBuf)
    ensures
        r == *path,
;

/// `PathBuf` equality; nothing is claimed of the result.
pub assume_specification[ <PathBuf as PartialEq>::eq ](path: &PathBuf, other: &PathBuf) -> bool;

/// The path a `PathBuf` holds, as `PathBuf::as_path` borrows it.
pub uninterp spec fn path_of(path: &PathBuf) -> &Path;

/// Borrows the path a `PathBuf` holds (`PathBuf::as_path`). The contract
/// only names the result.
#[verifier::external_body]
fn borrow_path(path: &PathBuf) -> (r: &Path)
    ensures
        r == path_of(path),
{
    path.as_path()
}

#[derive(Clone, Debug, PartialEq, Eq)]
pub struct MessageAttachmentUpload {
    source: MessageAttachmentSource,
    pub filename: String,
    pub size_bytes: u64,
}

#[derive(Clone, Debug, PartialEq, Eq)]
enum MessageAttachmentSource {
    File(PathBuf),
    Bytes(Vec<u8>),
}

impl MessageAttachmentUpload {
    /// Whether the upload is read from a file (rather than held in memory).
    pub closed spec fn is_file(&self) -> bool {
        self.source is File
    }

    /// The file the upload is read from, when it is one.
    pub closed spec fn file_path(&self) -> PathBuf {
        self.source->File_0
    }

    /// The name the file is uploaded under.
    pub closed spec fn upload_filename(&self) -> String {
        self.filename
    }

    /// The size announced for the upload.
    pub closed spec fn upload_size(&self) -> u64 {
        self.size_bytes
    }

    /// The in-memory bytes of the upload, when it holds them.
    pub closed spec fn held_bytes(&self) -> Seq<u8> {
        self.source->Bytes_0@
    }

    /// The name the file is uploaded under.
    pub fn upload_name(&self) -> (r: &String)
        ensures
            *r == self.upload_filename(),
    {
        &self.filename
    }

    pub fn from_path(path: PathBuf, filename: String, size_bytes: u64) -> (r: Self)
        ensures
            r.is_file(),
            r.file_path() == path,
            r.upload_filename() == filename,
            r.upload_size() == size_bytes,
    {
        MessageAttachmentUpload { source: MessageAttachmentSource::File(path), filename, size_bytes }
    }

    /// An upload of bytes already in memory; its size is their count.
    pub fn from_bytes(filename: String, bytes: Vec<u8>) -> (r: Self)
        ensures
            !r.is_file(),
            r.held_bytes() == bytes@,
            r.upload_filename() == filename,
            r.upload_size() == bytes@.len(),
    {
        let size_bytes = bytes.len() as u64;
        MessageAttachmentUpload {
            size_bytes,
            source: MessageAttachmentSource::Bytes(bytes),
            filename,
        }
    }

    /// The file an upload is read from, borrowed as a `Path`; `None` for an
    /// upload held in memory.
    pub fn path(&self) -> (r: Option<&Path>)
        ensures
            r is Some <==> self.is_file(),
            r matches Some(p) ==> p == path_of(&self.file_path()),
    {
        match &self.source {
            MessageAttachmentSource::File(path) => Some(borrow_path(path)),
            MessageAttachmentSource::Bytes(_) => None,
        }
    }

    pub fn bytes(&self) -> (r: Option<&[u8]>)
        ensures
            r is Some <==> !self.is_file(),
            r matches Some(b) ==> b@ == self.held_bytes(),
    {
        match &self.source {
            MessageAttachmentSource::File(_) => None,
            MessageAttachmentSource::Bytes(bytes) => Some(bytes.as_slice()),
        }
    }
}

#[derive(Clone, Debug, PartialEq, Eq)]
pub enum ReactionEmoji {
    Unicode(String),
    Custom { id: Id<EmojiMarker>, name: Option<String>, animated: bool },
}

#[derive(Clone, Copy, Debug, PartialEq, Eq)]
pub enum ForumPostArchiveState {
    Active,
    Archived,
}

impl Default for ForumPostArchiveState {
    fn default() -> (r: Self)
        ensures
            r == ForumPostArchiveState::Active,
    {
        ForumPostArchiveState::Active
    }
}

impl ForumPostArchiveState {
    /// The `archived` query value of the forum search for this state.
    pub fn as_query_value(self) -> (r: &'static str)
        ensures
            r@ == (match self {
                ForumPostArchiveState::Active => "false"@,
                ForumPostArchiveState::Archived => "true"@,
            }),
    {
        match self {
            ForumPostArchiveState::Active => "false",
            ForumPostArchiveState::Archived => "true",
        }
    }

    pub fn as_log_label(self) -> (r: &'static str)
        ensures
            r@ == (match self {
                ForumPostArchiveState::Active => "active"@,
                ForumPostArchiveState::Archived => "archived"@,
            }),
    {
        match self {
            ForumPostArchiveState::Active => "active",
            ForumPostArchiveState::Archived => "archived",
        }
    }
}

#[derive(Clone, Copy, Debug, PartialEq, Eq)]
pub enum MuteDuration {
    Minutes(u64),
    Permanent,
}

/// The `selected_time_window` sent for a mute: its length in seconds (capped
/// at the largest `i64`), or -1 for a permanent mute.
pub open spec fn mute_window_seconds(duration: MuteDuration) -> i64 {
    match duration {
        MuteDuration::Minutes(minutes) => if minutes * 60 <= i64::MAX {
            (minutes * 60) as i64
        } else {
            i64::MAX
        },
        MuteDuration::Permanent => -1i64,
    }
}

impl MuteDuration {
    pub fn minutes(self) -> (r: Option<u64>)
        ensures
            r == (match self {
                MuteDuration::Minutes(m) => Some(m),
                MuteDuration::Permanent => None,
            }),
    {
        match self {
            MuteDuration::Minutes(minutes) => Some(minutes),
            MuteDuration::Permanent => None,
        }
    }

    pub fn selected_time_window_seconds(self) -> (r: i64)
        ensures
            r == mute_window_seconds(self),
    {
        match self {
            MuteDuration::Minutes(minutes) => {
                if minutes <= 153722867280912930 {
                    (minutes * 60) as i64
                } else {
                    i64::MAX
                }
            },
            MuteDuration::Permanent => -1,
        }
    }
}

/// The label a reaction is shown with in status messages.
pub open spec fn reaction_status_label(emoji: ReactionEmoji) -> Seq<char> {
    match emoji {
        ReactionEmoji::Unicode(text) => text@,
        ReactionEmoji::Custom { name, .. } => match name {
            Some(name) => ":"@ + name@ + ":"@,
            None => ":custom:"@,
        },
    }
}

impl ReactionEmoji {
    pub fn status_label(&self) -> (r: String)
        ensures
            r@ == reaction_status_label(*self),
    {
        match self {
            ReactionEmoji::Unicode(emoji) => emoji.clone(),
            ReactionEmoji::Custom { name, .. } => match name {
                Some(name) => {
                    let mut out = String::new();
                    push_str(&mut out, ":");
                    push_str(&mut out, name.as_str());
                    push_str(&mut out, ":");
                    out
                },
                None => String::from_str(":custom:"),
            },
        }
    }

    /// CDN address of the emoji image; `None` for unicode emoji.
    pub fn custom_image_url(&self) -> (r: Option<String>)
        ensures
            self is Unicode ==> r is None,
            self matches ReactionEmoji::Custom { id, animated, .. } ==> (r matches Some(url)
                && url@ == emoji_image_url(id@, *animated)),
    {
        match self {
            ReactionEmoji::Unicode(_) => None,
            ReactionEmoji::Custom { id, animated, .. } => Some(
                emoji_image_url_string(id.get(), *animated),
            ),
        }
    }
}

#[derive(Clone, Copy, Debug, PartialEq, Eq)]
pub enum DownloadAttachmentSource {
    ImageViewer,
    MessageAction,
}

} // verus!
