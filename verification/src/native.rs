//! The calls that a mobile binding makes, over a store handle that the
//! caller keeps.
//!
//! Notes cross this boundary with their timestamps written out as RFC 3339
//! text, which is also how a host keeps them on disk.

use crate::database::is_refusal;
use crate::database::views_of;
use crate::database::DatabaseConnection;
use crate::error::NotaroError;
use crate::models::text_of;
use crate::models::NoteView;
use crate::replica::edited;
use crate::replica::enumerates;
use crate::replica::LocalEdit;
use crate::replica::in_list_order;
use crate::replica::StoreView;
use crate::time::rfc3339_instant;
use crate::time::Timestamp;
use vstd::prelude::*;
use vstd::std_specs::convert::FromSpecImpl;

verus! {

/// What a note is on this boundary, as mathematics.
pub struct NoteRow {
    pub id: Seq<char>,
    pub title: Seq<char>,
    pub content: Seq<char>,
    pub folder: Option<Seq<char>>,
    pub is_pinned: bool,
    pub created_at: Seq<char>,
    pub updated_at: Seq<char>,
    pub version: int,
    pub is_deleted: bool,
}

/// A note with its timestamps as RFC 3339 text.
#[derive(Debug, PartialEq)]
pub struct Note {
    pub id: String,
    pub title: String,
    pub content: String,
    pub folder: Option<String>,
    pub is_pinned: bool,
    pub created_at: String,
    pub updated_at: String,
    pub version: i32,
    pub is_deleted: bool,
}

impl View for Note {
    type V = NoteRow;

    open spec fn view(&self) -> NoteRow {
        NoteRow {
            id: self.id@,
            title: self.title@,
            content: self.content@,
            folder: text_of(self.folder),
            is_pinned: self.is_pinned,
            created_at: self.created_at@,
            updated_at: self.updated_at@,
            version: self.version as int,
            is_deleted: self.is_deleted,
        }
    }
}

/// The row that stands for a note: the same fields, each timestamp as the
/// RFC 3339 text of its instant.
pub open spec fn row_of(note: NoteView) -> NoteRow {
    NoteRow {
        id: note.id,
        title: note.title,
        content: note.content,
        folder: note.folder,
        is_pinned: note.is_pinned,
        created_at: note.created_at.spec_rfc3339(),
        updated_at: note.updated_at.spec_rfc3339(),
        version: note.version,
        is_deleted: note.is_deleted,
    }
}

impl From<crate::models::Note> for Note {
    fn from(note: crate::models::Note) -> (row: Note)
        ensures
            row@ == row_of(note@),
    {
        Note {
            created_at: note.created_at.to_rfc3339(),
            updated_at: note.updated_at.to_rfc3339(),
            id: note.id,
            title: note.title,
            content: note.content,
            folder: note.folder,
            is_pinned: note.is_pinned,
            version: note.version,
            is_deleted: note.is_deleted,
        }
    }
}

// A row's two texts are chrono's and cannot be written down as a value here,
// so the conversion is specified on `from` itself, by the row's view.
impl FromSpecImpl<crate::models::Note> for Note {
    open spec fn obeys_from_spec() -> bool {
        false
    }

    open spec fn from_spec(note: crate::models::Note) -> Note {
        arbitrary()
    }
}

impl Note {
    /// Whether `note` is what this row reads as: the same fields, each
    /// timestamp the instant that its text stands for.
    pub open spec fn reads_as(self, note: NoteView) -> bool {
        &&& note.id == self.id@
        &&& note.title == self.title@
        &&& note.content == self.content@
        &&& note.folder == text_of(self.folder)
        &&& note.is_pinned == self.is_pinned
        &&& note.created_at.is_read_from(self.created_at@)
        &&& note.updated_at.is_read_from(self.updated_at@)
        &&& note.version == self.version
        &&& note.is_deleted == self.is_deleted
    }

    /// Reads the row back into a note. A timestamp that is not RFC 3339 text
    /// is a serialization fault.
    pub fn to_core(&self) -> (read: Result<crate::models::Note, NotaroError>)
        ensures
            read is Ok <==> rfc3339_instant(self.created_at@) is Some && rfc3339_instant(
                self.updated_at@,
            ) is Some,
            read matches Ok(note) ==> self.reads_as(note@),
            read matches Err(e) ==> e is Timestamp,
    {
        let created_at = match Timestamp::parse_rfc3339(self.created_at.as_str()) {
            Ok(instant) => instant,
            Err(e) => {
                return Err(e);
            },
        };
        let updated_at = match Timestamp::parse_rfc3339(self.updated_at.as_str()) {
            Ok(instant) => instant,
            Err(e) => {
                return Err(e);
            },
        };
        Ok(
            crate::models::Note {
                id: self.id.clone(),
                title: self.title.clone(),
                content: self.content.clone(),
                folder: crate::models::copy_label(&self.folder),
                is_pinned: self.is_pinned,
                created_at,
                updated_at,
                version: self.version,
                is_deleted: self.is_deleted,
            },
        )
    }
}

/// The settings as they cross this boundary.
#[derive(Debug, PartialEq)]
pub struct UserSettings {
    pub theme_mode: String,
    pub accent_hue: u16,
    pub font_family: String,
    pub font_size: u8,
}

impl View for UserSettings {
    type V = crate::models::UserSettingsView;

    open spec fn view(&self) -> crate::models::UserSettingsView {
        crate::models::UserSettingsView {
            theme_mode: self.theme_mode@,
            accent_hue: self.accent_hue,
            font_family: self.font_family@,
            font_size: self.font_size,
        }
    }
}

impl From<crate::models::UserSettings> for UserSettings {
    fn from(settings: crate::models::UserSettings) -> (out: UserSettings) {
        UserSettings {
            theme_mode: settings.theme_mode,
            accent_hue: settings.accent_hue,
            font_family: settings.font_family,
            font_size: settings.font_size,
        }
    }
}

impl FromSpecImpl<crate::models::UserSettings> for UserSettings {
    open spec fn obeys_from_spec() -> bool {
        true
    }

    open spec fn from_spec(settings: crate::models::UserSettings) -> UserSettings {
        UserSettings {
            theme_mode: settings.theme_mode,
            accent_hue: settings.accent_hue,
            font_family: settings.font_family,
            font_size: settings.font_size,
        }
    }
}

impl From<UserSettings> for crate::models::UserSettings {
    fn from(settings: UserSettings) -> (out: crate::models::UserSettings) {
        crate::models::UserSettings {
            theme_mode: settings.theme_mode,
            accent_hue: settings.accent_hue,
            font_family: settings.font_family,
            font_size: settings.font_size,
        }
    }
}

impl FromSpecImpl<UserSettings> for crate::models::UserSettings {
    open spec fn obeys_from_spec() -> bool {
        true
    }

    open spec fn from_spec(settings: UserSettings) -> crate::models::UserSettings {
        crate::models::UserSettings {
            theme_mode: settings.theme_mode,
            accent_hue: settings.accent_hue,
            font_family: settings.font_family,
            font_size: settings.font_size,
        }
    }
}

/// Why a call on this boundary failed.
#[derive(Debug)]
pub enum ApiError {
    /// The handle has no store yet: `init_db` comes first.
    NotInitialized,
    /// The store reported a failure.
    Store(NotaroError),
}

impl ApiError {
    /// Whether `text` is this error written out for a reader.
    pub open spec fn renders_as(&self, text: Seq<char>) -> bool {
        match self {
            ApiError::NotInitialized => text == "Database not initialized. Call init_db first."@,
            ApiError::Store(cause) => cause.renders_as(text),
        }
    }

    /// Writes the error out for a reader.
    pub fn message(&self) -> (text: String)
        ensures
            self.renders_as(text@),
    {
        match self {
            ApiError::NotInitialized => "Database not initialized. Call init_db first.".to_owned(),
            ApiError::Store(cause) => cause.message(),
        }
    }
}

/// The handle that a binding keeps: a store once `init_db` has run, nothing
/// before.
pub struct NativeDb {
    store: Option<DatabaseConnection>,
}

impl View for NativeDb {
    type V = Option<StoreView>;

    closed spec fn view(&self) -> Option<StoreView> {
        match self.store {
            Some(store) => Some(store@),
            None => None,
        }
    }
}

impl NativeDb {
    /// A handle without a store.
    pub fn new() -> (handle: NativeDb)
        ensures
            handle@ is None,
    {
        NativeDb { store: None }
    }

    /// Hands the handle a store, in place of the one it may have.
    pub fn attach(&mut self, store: DatabaseConnection)
        ensures
            final(self)@ == Some(store@),
    {
        self.store = Some(store);
    }

    /// Whether `init_db` has run.
    pub fn is_initialized(&self) -> (yes: bool)
        ensures
            yes == (self@ is Some),
    {
        self.store.is_some()
    }
}

/// Calls `std::path::Path::join` on `dir` with `file` and writes the joined
/// path out as text. Which separator goes between the two, and what a drive
/// or a root in either does to the other, is the platform's business, so
/// nothing is claimed of the result.
#[verifier::external_body]
fn join_path(dir: &str, file: &str) -> (path: String) {
    std::path::Path::new(dir).join(file).to_string_lossy().into_owned()
}

/// Gives the handle an empty store for the file `notaro.db` in the given
/// directory. The store's location is that directory joined with the file
/// name as the platform joins paths.
pub fn init_db(handle: &mut NativeDb, app_doc_dir: String) -> (done: Result<(), ApiError>)
    ensures
        done is Ok,
        final(handle)@ matches Some(store) && store.notes == Map::<Seq<char>, NoteView>::empty()
            && store.settings is None,
{
    let path = join_path(app_doc_dir.as_str(), "notaro.db");
    match DatabaseConnection::new(path.as_str()) {
        Ok(store) => {
            handle.attach(store);
            Ok(())
        },
        Err(e) => Err(ApiError::Store(e)),
    }
}

/// The rows of a run of notes, in order.
pub open spec fn rows_of(notes: Seq<NoteView>) -> Seq<NoteRow> {
    notes.map_values(|note: NoteView| row_of(note))
}

/// The views of a run of rows, in order.
pub open spec fn row_views(rows: Seq<Note>) -> Seq<NoteRow> {
    rows.map_values(|row: Note| row@)
}

/// Writes a run of notes out as rows, in order.
fn to_rows(notes: Vec<crate::models::Note>) -> (rows: Vec<Note>)
    ensures
        row_views(rows@) == rows_of(views_of(notes@)),
{
    let mut rows: Vec<Note> = Vec::new();
    let mut k: usize = 0;
    while k < notes.len()
        invariant
            k <= notes@.len(),
            row_views(rows@) == rows_of(views_of(notes@.take(k as int))),
        decreases notes@.len() - k,
    {
        let ghost before = row_views(rows@);
        rows.push(Note::from(notes[k].clone()));
        proof {
            assert(notes@.take(k + 1) == notes@.take(k as int).push(notes@[k as int]));
            assert(row_views(rows@) == before.push(row_of(notes@[k as int]@)));
            assert(rows_of(views_of(notes@.take(k + 1))) == rows_of(
                views_of(notes@.take(k as int)),
            ).push(row_of(notes@[k as int]@)));
        }
        k += 1;
    }
    proof {
        assert(notes@.take(k as int) == notes@);
    }
    rows
}

/// Every note as a row, tombstones included: pinned notes first, and among
/// equally pinned ones the most recently updated first.
pub fn get_all_notes(handle: &NativeDb) -> (listed: Result<Vec<Note>, ApiError>)
    ensures
        handle@ is None ==> (listed matches Err(ApiError::NotInitialized)),
        handle@ matches Some(store) ==> (listed matches Ok(rows) && exists|notes: Seq<NoteView>|
            #[trigger] enumerates(store.notes, notes) && in_list_order(notes) && row_views(rows@)
                == rows_of(notes)),
{
    match &handle.store {
        None => Err(ApiError::NotInitialized),
        Some(store) => match store.get_all_notes() {
            Ok(notes) => {
                let ghost listed = views_of(notes@);
                let rows = to_rows(notes);
                proof {
                    assert(enumerates(store@.notes, listed));
                }
                Ok(rows)
            },
            Err(e) => Err(ApiError::Store(e)),
        },
    }
}

/// Creates a note under a fresh id, stamped with the current time, and hands
/// it back as a row. With a store in the handle, the call fails only where
/// the fresh id is one that the store already holds.
pub fn create_note(
    handle: &mut NativeDb,
    title: String,
    content: String,
    folder: Option<String>,
) -> (made: Result<Note, ApiError>)
    ensures
        old(handle)@ is None ==> (made matches Err(ApiError::NotInitialized)) && final(handle)@
            is None,
        old(handle)@ matches Some(store) ==> (match made {
            Ok(row) => exists|note: crate::models::Note| #[trigger]
                note.is_new_from(title@, content@, text_of(folder)) && row@ == row_of(note@)
                    && !store.holds(note.id@) && final(handle)@ == Some(store.with_note(note@)),
            Err(e) => e matches ApiError::Store(cause) && cause is DuplicateId && final(handle)@
                == old(handle)@,
        }),
        old(handle)@ matches Some(store) ==> (made is Err ==> exists|id: Seq<char>|
            id.len() == 36 && #[trigger] store.holds(id)),
{
    match &mut handle.store {
        None => Err(ApiError::NotInitialized),
        Some(store) => match store.create_note(title, content, folder) {
            Ok(note) => {
                proof {
                    assert(note.is_new_from(title@, content@, text_of(folder)));
                }
                Ok(Note::from(note))
            },
            Err(e) => {
                proof {
                    let before = old(handle)@->Some_0;
                    let id = choose|id: Seq<char>| id.len() == 36 && #[trigger] before.holds(id);
                    assert(id.len() == 36 && before.holds(id));
                }
                Err(ApiError::Store(e))
            },
        },
    }
}

/// Rewrites a note's title, content, folder and pin as of the current time,
/// and hands the note back as a row.
pub fn update_note(
    handle: &mut NativeDb,
    id: String,
    title: String,
    content: String,
    folder: Option<String>,
    is_pinned: bool,
) -> (changed: Result<Note, ApiError>)
    ensures
        old(handle)@ is None ==> (changed matches Err(ApiError::NotInitialized)) && final(handle)@
            is None,
        old(handle)@ matches Some(store) ==> ({
            &&& changed is Ok <==> store.holds(id@) && store.notes[id@].version < i32::MAX
            &&& changed matches Ok(row) ==> exists|note: NoteView|
                ({
                    let edit = LocalEdit::Update {
                        title: title@,
                        content: content@,
                        folder: text_of(folder),
                        is_pinned,
                        now: note.updated_at,
                    };
                    row@ == #[trigger] row_of(note) && Some(note) == edited(store.notes[id@], edit)
                        && final(handle)@ == Some(store.after_edit(id@, edit))
                })
            &&& changed matches Err(e) ==> final(handle)@ == old(handle)@ && (
            e matches ApiError::Store(cause) && is_refusal(store, id@, cause))
        }),
{
    match &mut handle.store {
        None => Err(ApiError::NotInitialized),
        Some(store) => match store.update_note(id.as_str(), title, content, folder, is_pinned) {
            Ok(note) => {
                let ghost changed = note@;
                let row = Note::from(note);
                proof {
                    assert(row@ == row_of(changed));
                }
                Ok(row)
            },
            Err(e) => Err(ApiError::Store(e)),
        },
    }
}

/// Deletes a note as of the current time, in two stages: a live note becomes
/// a tombstone, a tombstone is removed for good.
pub fn delete_note(handle: &mut NativeDb, id: String) -> (done: Result<(), ApiError>)
    ensures
        old(handle)@ is None ==> (done matches Err(ApiError::NotInitialized)) && final(handle)@
            is None,
        old(handle)@ matches Some(store) ==> ({
            &&& done is Ok <==> store.holds(id@) && (store.notes[id@].is_deleted
                || store.notes[id@].version < i32::MAX)
            &&& done is Ok ==> exists|now: Timestamp|
                final(handle)@ == Some(#[trigger] store.after_edit(id@, LocalEdit::Delete { now }))
            &&& done matches Err(e) ==> final(handle)@ == old(handle)@ && (
            e matches ApiError::Store(cause) && is_refusal(store, id@, cause))
        }),
{
    match &mut handle.store {
        None => Err(ApiError::NotInitialized),
        Some(store) => match store.delete_note(id.as_str()) {
            Ok(()) => Ok(()),
            Err(e) => Err(ApiError::Store(e)),
        },
    }
}

/// Brings a note back from the trash as of the current time. A live note is
/// stamped and versioned all the same; an id that is not stored changes
/// nothing.
pub fn restore_note(handle: &mut NativeDb, id: String) -> (done: Result<(), ApiError>)
    ensures
        old(handle)@ is None ==> (done matches Err(ApiError::NotInitialized)) && final(handle)@
            is None,
        old(handle)@ matches Some(store) ==> ({
            &&& done is Ok <==> !store.holds(id@) || store.notes[id@].version < i32::MAX
            &&& done is Ok && store.holds(id@) ==> exists|now: Timestamp|
                final(handle)@ == Some(
                    #[trigger] store.after_edit(id@, LocalEdit::Restore { now }),
                )
            &&& done is Ok && !store.holds(id@) ==> final(handle)@ == old(handle)@
            &&& done matches Err(e) ==> final(handle)@ == old(handle)@ && (
            e matches ApiError::Store(cause) && cause is VersionOverflow)
        }),
{
    match &mut handle.store {
        None => Err(ApiError::NotInitialized),
        Some(store) => match store.restore_note(id.as_str()) {
            Ok(()) => Ok(()),
            Err(e) => Err(ApiError::Store(e)),
        },
    }
}

/// The settings; a store that has none yet takes the defaults and keeps
/// them.
pub fn get_settings(handle: &mut NativeDb) -> (got: Result<UserSettings, ApiError>)
    ensures
        old(handle)@ is None ==> (got matches Err(ApiError::NotInitialized)) && final(handle)@
            is None,
        old(handle)@ matches Some(store) ==> (got matches Ok(settings) && settings@
            == store.settings_in_force() && final(handle)@ == Some(
            store.with_settings(settings@),
        )),
{
    match &mut handle.store {
        None => Err(ApiError::NotInitialized),
        Some(store) => match store.get_settings() {
            Ok(settings) => Ok(UserSettings::from(settings)),
            Err(e) => Err(ApiError::Store(e)),
        },
    }
}

/// Replaces the settings, whatever they were.
pub fn update_settings(handle: &mut NativeDb, settings: UserSettings) -> (done: Result<
    (),
    ApiError,
>)
    ensures
        old(handle)@ is None ==> (done matches Err(ApiError::NotInitialized)) && final(handle)@
            is None,
        old(handle)@ matches Some(store) ==> done is Ok && final(handle)@ == Some(
            store.with_settings(settings@),
        ),
{
    match &mut handle.store {
        None => Err(ApiError::NotInitialized),
        Some(store) => {
            let settings = crate::models::UserSettings::from(settings);
            match store.update_settings(&settings) {
                Ok(()) => Ok(()),
                Err(e) => Err(ApiError::Store(e)),
            }
        },
    }
}

/// Whether the row's two timestamps are RFC 3339 text.
pub open spec fn is_readable(row: NoteRow) -> bool {
    rfc3339_instant(row.created_at) is Some && rfc3339_instant(row.updated_at) is Some
}

/// Whether `notes` is what `rows` read as, row by row.
pub open spec fn read_as(rows: Seq<Note>, notes: Seq<NoteView>) -> bool {
    &&& notes.len() == rows.len()
    &&& forall|i: int| 0 <= i < rows.len() ==> (#[trigger] rows[i]).reads_as(notes[i])
}

/// Reads a run of rows back into notes, in order. One timestamp that is not
/// RFC 3339 text fails the whole run.
pub fn to_notes(rows: &Vec<Note>) -> (read: Result<Vec<crate::models::Note>, NotaroError>)
    ensures
        read is Ok <==> forall|i: int| 0 <= i < rows@.len() ==> is_readable(#[trigger] rows@[i]@),
        read matches Ok(notes) ==> read_as(rows@, views_of(notes@)),
        read matches Err(e) ==> e is Timestamp,
{
    let mut notes: Vec<crate::models::Note> = Vec::new();
    let mut k: usize = 0;
    while k < rows.len()
        invariant
            k <= rows@.len(),
            notes@.len() == k,
            forall|i: int| 0 <= i < k ==> is_readable(#[trigger] rows@[i]@),
            forall|i: int| 0 <= i < k ==> (#[trigger] rows@[i]).reads_as(notes@[i]@),
        decreases rows@.len() - k,
    {
        match rows[k].to_core() {
            Ok(note) => {
                notes.push(note);
            },
            Err(e) => {
                proof {
                    assert(!is_readable(rows@[k as int]@));
                }
                return Err(e);
            },
        }
        k += 1;
    }
    proof {
        let read = views_of(notes@);
        assert forall|i: int| 0 <= i < rows@.len() implies (#[trigger] rows@[i]).reads_as(
            read[i],
        ) by {
            assert(read[i] == notes@[i]@);
        }
    }
    Ok(notes)
}

/// Merges stored rows into the handle's store, as a start-up does with what
/// it finds on disk. One timestamp that is not RFC 3339 text fails the call
/// and leaves the store as it was.
pub fn load_notes(handle: &mut NativeDb, rows: Vec<Note>) -> (done: Result<(), ApiError>)
    ensures
        old(handle)@ is None ==> (done matches Err(ApiError::NotInitialized)) && final(handle)@
            is None,
        old(handle)@ matches Some(store) ==> ({
            &&& done is Ok <==> forall|i: int|
                0 <= i < rows@.len() ==> is_readable(#[trigger] rows@[i]@)
            &&& done is Ok ==> exists|notes: Seq<NoteView>| #[trigger]
                read_as(rows@, notes) && final(handle)@ == Some(
                    store.merged(notes),
                )
            &&& done matches Err(e) ==> final(handle)@ == old(handle)@ && (
            e matches ApiError::Store(cause) && cause is Timestamp)
        }),
{
    match &mut handle.store {
        None => Err(ApiError::NotInitialized),
        Some(store) => match to_notes(&rows) {
            Ok(notes) => {
                proof {
                    assert(read_as(rows@, views_of(notes@)));
                }
                match store.merge_changes(notes) {
                    Ok(()) => Ok(()),
                    Err(e) => Err(ApiError::Store(e)),
                }
            },
            Err(e) => Err(ApiError::Store(e)),
        },
    }
}

} // verus!
