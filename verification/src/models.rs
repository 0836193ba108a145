//! The records that the store keeps and the messages that carry them
//! between replicas.

use crate::time::Timestamp;
use vstd::prelude::*;

verus! {

/// What a note is, as mathematics: text as sequences of characters and the
/// version as an unbounded integer.
pub struct NoteView {
    pub id: Seq<char>,
    pub title: Seq<char>,
    pub content: Seq<char>,
    pub folder: Option<Seq<char>>,
    pub is_pinned: bool,
    pub created_at: Timestamp,
    pub updated_at: Timestamp,
    pub version: int,
    pub is_deleted: bool,
}

/// One note, live or tombstoned.
#[derive(Debug, PartialEq)]
pub struct Note {
    /// Assigned at creation and never changed.
    pub id: String,
    pub title: String,
    pub content: String,
    /// The grouping label; `None` is "unfiled".
    pub folder: Option<String>,
    pub is_pinned: bool,
    pub created_at: Timestamp,
    pub updated_at: Timestamp,
    /// Raised by one on every local change; the higher version wins a merge.
    pub version: i32,
    /// A tombstone: the note is deleted but kept so that the deletion can
    /// reach other replicas.
    pub is_deleted: bool,
}

/// The text of an optional string.
pub open spec fn text_of(label: Option<String>) -> Option<Seq<char>> {
    match label {
        Some(text) => Some(text@),
        None => None,
    }
}

/// Copies an optional string.
pub fn copy_label(label: &Option<String>) -> (copy: Option<String>)
    ensures
        copy == *label,
{
    match label {
        Some(text) => Some(text.clone()),
        None => None,
    }
}

impl View for Note {
    type V = NoteView;

    open spec fn view(&self) -> NoteView {
        NoteView {
            id: self.id@,
            title: self.title@,
            content: self.content@,
            folder: text_of(self.folder),
            is_pinned: self.is_pinned,
            created_at: self.created_at,
            updated_at: self.updated_at,
            version: self.version as int,
            is_deleted: self.is_deleted,
        }
    }
}

impl Clone for Note {
    fn clone(&self) -> (copy: Note)
        ensures
            copy == *self,
    {
        Note {
            id: self.id.clone(),
            title: self.title.clone(),
            content: self.content.clone(),
            folder: copy_label(&self.folder),
            is_pinned: self.is_pinned,
            created_at: self.created_at,
            updated_at: self.updated_at,
            version: self.version,
            is_deleted: self.is_deleted,
        }
    }
}

/// Calls `uuid::Uuid::new_v4` and writes the value out with its `Display`
/// impl. The value is random; what holds of every outcome is the hyphenated
/// form's length of 36 characters. (uuid gives up on a system without a
/// source of random bytes.)
#[verifier::external_body]
fn fresh_id() -> (id: String)
    ensures
        id@.len() == 36,
{
    uuid::Uuid::new_v4().to_string()
}

impl Note {
    /// Whether `self` is a note as `Note::new` makes it from the three
    /// given parts: first version, neither pinned nor deleted, created and
    /// updated at one instant, under an id of its own.
    pub open spec fn is_new_from(
        self,
        title: Seq<char>,
        content: Seq<char>,
        folder: Option<Seq<char>>,
    ) -> bool {
        &&& self.id@.len() == 36
        &&& self.title@ == title
        &&& self.content@ == content
        &&& text_of(self.folder) == folder
        &&& !self.is_pinned
        &&& self.created_at == self.updated_at
        &&& self.version == 1
        &&& !self.is_deleted
    }

    /// Makes a note under a fresh random id, stamped with the current time.
    pub fn new(title: String, content: String, folder: Option<String>) -> (note: Note)
        ensures
            note.is_new_from(title@, content@, text_of(folder)),
    {
        Note::new_at(fresh_id(), title, content, folder, Timestamp::now())
    }

    /// Makes the first version of a note under the given id and instant.
    pub fn new_at(
        id: String,
        title: String,
        content: String,
        folder: Option<String>,
        now: Timestamp,
    ) -> (note: Note)
        ensures
            note@ == (NoteView {
                id: id@,
                title: title@,
                content: content@,
                folder: text_of(folder),
                is_pinned: false,
                created_at: now,
                updated_at: now,
                version: 1,
                is_deleted: false,
            }),
    {
        Note {
            id,
            title,
            content,
            folder,
            is_pinned: false,
            created_at: now,
            updated_at: now,
            version: 1,
            is_deleted: false,
        }
    }
}

/// What the settings are, as mathematics.
pub struct UserSettingsView {
    pub theme_mode: Seq<char>,
    pub accent_hue: u16,
    pub font_family: Seq<char>,
    pub font_size: u8,
}

/// How the application looks; one per store, never merged between devices.
#[derive(Debug, PartialEq)]
pub struct UserSettings {
    /// "system", "light" or "dark".
    pub theme_mode: String,
    /// A hue in degrees, 0 to 360.
    pub accent_hue: u16,
    /// "sans", "serif" or "mono".
    pub font_family: String,
    /// The base font size in pixels.
    pub font_size: u8,
}

impl View for UserSettings {
    type V = UserSettingsView;

    open spec fn view(&self) -> UserSettingsView {
        UserSettingsView {
            theme_mode: self.theme_mode@,
            accent_hue: self.accent_hue,
            font_family: self.font_family@,
            font_size: self.font_size,
        }
    }
}

impl Clone for UserSettings {
    fn clone(&self) -> (copy: UserSettings)
        ensures
            copy == *self,
    {
        UserSettings {
            theme_mode: self.theme_mode.clone(),
            accent_hue: self.accent_hue,
            font_family: self.font_family.clone(),
            font_size: self.font_size,
        }
    }
}

/// The settings of a store that has none yet: the system theme, hue 250,
/// the sans family at 14 pixels.
pub open spec fn default_settings() -> UserSettingsView {
    UserSettingsView {
        theme_mode: "system"@,
        accent_hue: 250,
        font_family: "sans"@,
        font_size: 14,
    }
}

impl Default for UserSettings {
    fn default() -> (settings: UserSettings)
        ensures
            settings@ == default_settings(),
    {
        UserSettings {
            theme_mode: "system".to_owned(),
            accent_hue: 250,
            font_family: "sans".to_owned(),
            font_size: 14,
        }
    }
}

/// What crosses the wire between two replicas. These four shapes are all
/// there is.
#[derive(Debug, PartialEq)]
pub enum SyncMessage {
    /// Asks for every record whose version is above `since_version`.
    PullRequest { since_version: i32 },
    /// Answers a pull: the records asked for, and the highest version in
    /// the answering store.
    PullResponse { changes: Vec<Note>, current_version: i32 },
    /// Hands over records to be merged.
    PushUpdates { changes: Vec<Note> },
    /// Confirms that the previous message arrived.
    Ack,
}

} // verus!
