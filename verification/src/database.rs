//! The persistence engine: the notes and settings of one replica, with the
//! operations that read and change them.
//!
//! The engine holds the state and decides every change to it. Keeping that
//! state on disk is the host's part: it hands the engine what it has stored
//! and writes out what the engine holds.

use crate::error::NotaroError;
use crate::models::text_of;
use crate::models::Note;
use crate::models::NoteView;
use crate::models::SyncMessage;
use crate::models::UserSettings;
use crate::replica::admits;
use crate::replica::changes_after;
use crate::replica::edited;
use crate::replica::enumerates;
use crate::replica::in_list_order;
use crate::replica::is_highest_version;
use crate::replica::keyed_by_id;
use crate::replica::lemma_enumerates_insert;
use crate::replica::lists_before;
use crate::replica::merge_all;
use crate::replica::LocalEdit;
use crate::replica::Notes;
use crate::replica::StoreView;
use crate::time::Timestamp;
use vstd::prelude::*;

verus! {

/// No two records share an id.
spec fn distinct_ids(records: Seq<Note>) -> bool {
    forall|i: int, j: int|
        0 <= i < j < records.len() ==> (#[trigger] records[i]).id@ != (#[trigger] records[j]).id@
}

/// Whether some record has the id.
spec fn holds_id(records: Seq<Note>, id: Seq<char>) -> bool {
    exists|i: int| 0 <= i < records.len() && (#[trigger] records[i]).id@ == id
}

/// A place where the id stands, if any does.
spec fn place_of(records: Seq<Note>, id: Seq<char>) -> int {
    choose|i: int| 0 <= i < records.len() && (#[trigger] records[i]).id@ == id
}

/// The records as a map from id to record.
spec fn as_map(records: Seq<Note>) -> Notes {
    Map::new(|id: Seq<char>| holds_id(records, id), |id: Seq<char>| records[place_of(records, id)]@)
}

/// The views of a run of records, in order.
pub open spec fn views_of(records: Seq<Note>) -> Seq<NoteView> {
    records.map_values(|note: Note| note@)
}

/// Whether `e` is the failure that a local change of the note under `id`
/// meets: an id that is not stored is not found, and a stored note that is
/// refused has its version at the ceiling.
pub open spec fn is_refusal(store: StoreView, id: Seq<char>, e: NotaroError) -> bool {
    if store.holds(id) {
        e is VersionOverflow
    } else {
        e is NotFound
    }
}

/// The notes and settings of one replica.
pub struct DatabaseConnection {
    location: String,
    notes: Vec<Note>,
    settings: Option<UserSettings>,
}

impl View for DatabaseConnection {
    type V = StoreView;

    closed spec fn view(&self) -> StoreView {
        StoreView {
            location: self.location@,
            notes: as_map(self.notes@),
            settings: match self.settings {
                Some(settings) => Some(settings@),
                None => None,
            },
        }
    }
}

impl DatabaseConnection {
    #[verifier::type_invariant]
    spec fn well_formed(&self) -> bool {
        distinct_ids(self.notes@)
    }

    /// Every stored note is filed under its own id.
    pub proof fn notes_are_keyed_by_id(&self)
        ensures
            keyed_by_id(self@.notes),
    {
        let records = self.notes@;
        assert forall|id: Seq<char>| #[trigger]
            as_map(records).contains_key(id) implies as_map(records)[id].id == id by {
            let p = place_of(records, id);
            assert(records[p].id@ == id);
        }
    }

    /// Takes the records out of the store, leaving none behind.
    fn take_records(&mut self) -> (records: Vec<Note>)
        ensures
            records == old(self).notes,
            distinct_ids(records@),
            final(self).notes@.len() == 0,
            final(self).location == old(self).location,
            final(self).settings == old(self).settings,
    {
        proof {
            use_type_invariant(&*self);
        }
        let mut records: Vec<Note> = Vec::new();
        core::mem::swap(&mut self.notes, &mut records);
        records
    }

    /// Makes `records` the store's records.
    fn put_records(&mut self, records: Vec<Note>)
        requires
            distinct_ids(records@),
        ensures
            final(self).notes == records,
            final(self).location == old(self).location,
            final(self).settings == old(self).settings,
    {
        self.notes = records;
    }

    /// An empty store for the given storage location: a file path, or
    /// `":memory:"` for a store that is not kept.
    pub fn new(path: &str) -> (made: Result<DatabaseConnection, NotaroError>)
        ensures
            made matches Ok(db) && db@ == (StoreView {
                location: path@,
                notes: Map::empty(),
                settings: None,
            }),
    {
        let db = DatabaseConnection { location: path.to_owned(), notes: Vec::new(), settings: None };
        proof {
            assert(as_map(db.notes@) =~= Map::empty());
        }
        Ok(db)
    }

    /// The storage location that the store was made for.
    pub fn location(&self) -> (path: &str)
        ensures
            path@ == self@.location,
    {
        self.location.as_str()
    }

    /// Stores a note under an id that the store does not hold yet, and hands
    /// the note back.
    pub fn insert_note(&mut self, note: Note) -> (stored: Result<Note, NotaroError>)
        ensures
            stored is Ok <==> !old(self)@.holds(note.id@),
            stored matches Ok(kept) ==> kept == note && final(self)@ == old(self)@.with_note(note@),
            stored matches Err(e) ==> e is DuplicateId && final(self)@ == old(self)@,
    {
        proof {
            use_type_invariant(&*self);
        }
        match find(&self.notes, &note.id) {
            Some(at) => {
                proof {
                    lemma_record_is_mapped(self.notes@, at as int);
                }
                Err(NotaroError::DuplicateId)
            },
            None => {
                let mut records = self.take_records();
                proof {
                    lemma_push_inserts(records@, note);
                }
                records.push(note.clone());
                self.put_records(records);
                Ok(note)
            },
        }
    }

    /// Creates a note under a fresh id, stamped with the current time, and
    /// stores it. The call fails only where the fresh id is one that the
    /// store already holds, and then nothing is stored; a store that holds
    /// no id of a fresh id's length, an empty one above all, always takes
    /// the note.
    pub fn create_note(&mut self, title: String, content: String, folder: Option<String>) -> (made:
        Result<Note, NotaroError>)
        ensures
            made matches Ok(note) ==> note.is_new_from(title@, content@, text_of(folder))
                && !old(self)@.holds(note.id@) && final(self)@ == old(self)@.with_note(note@),
            made matches Err(e) ==> e is DuplicateId && final(self)@ == old(self)@,
            made is Err ==> exists|id: Seq<char>| id.len() == 36 && #[trigger] old(self)@.holds(id),
    {
        let note = Note::new(title, content, folder);
        let ghost id = note.id@;
        let made = self.insert_note(note);
        proof {
            if made is Err {
                assert(id.len() == 36 && old(self)@.holds(id));
            }
        }
        made
    }

    /// The note with the given id.
    pub fn get_note_by_id(&self, id: &str) -> (got: Result<Note, NotaroError>)
        ensures
            got is Ok <==> self@.holds(id@),
            got matches Ok(note) ==> note@ == self@.notes[id@] && note.id@ == id@,
            got matches Err(e) ==> e is NotFound,
    {
        proof {
            use_type_invariant(self);
        }
        let key = id.to_owned();
        match find(&self.notes, &key) {
            Some(at) => {
                proof {
                    lemma_record_is_mapped(self.notes@, at as int);
                }
                Ok(self.notes[at].clone())
            },
            None => Err(NotaroError::NotFound),
        }
    }

    /// Rewrites a note's title, content, folder and pin as of `now`, and
    /// returns the note as it then stands. A tombstone can be edited too.
    pub fn update_note_at(
        &mut self,
        id: &str,
        title: String,
        content: String,
        folder: Option<String>,
        is_pinned: bool,
        now: Timestamp,
    ) -> (changed: Result<Note, NotaroError>)
        ensures
            ({
                let before = old(self)@;
                let edit = LocalEdit::Update {
                    title: title@,
                    content: content@,
                    folder: text_of(folder),
                    is_pinned,
                    now,
                };
                &&& changed is Ok <==> before.holds(id@) && admits(before.notes[id@], edit)
                &&& changed matches Ok(note) ==> Some(note@) == edited(before.notes[id@], edit)
                    && final(self)@ == before.after_edit(id@, edit)
                &&& changed matches Err(e) ==> final(self)@ == before && is_refusal(before, id@, e)
            }),
    {
        proof {
            use_type_invariant(&*self);
        }
        let key = id.to_owned();
        match find(&self.notes, &key) {
            None => Err(NotaroError::NotFound),
            Some(at) => {
                proof {
                    lemma_record_is_mapped(self.notes@, at as int);
                }
                if self.notes[at].version == i32::MAX {
                    Err(NotaroError::VersionOverflow)
                } else {
                    let mut records = self.take_records();
                    let note = Note {
                        id: key,
                        title,
                        content,
                        folder,
                        is_pinned,
                        created_at: records[at].created_at,
                        updated_at: now,
                        version: records[at].version + 1,
                        is_deleted: records[at].is_deleted,
                    };
                    proof {
                        lemma_update_inserts(records@, at as int, note);
                    }
                    records.set(at, note.clone());
                    self.put_records(records);
                    Ok(note)
                }
            },
        }
    }

    /// Rewrites a note's title, content, folder and pin as of the current
    /// time, which the returned note carries as its `updated_at`.
    pub fn update_note(
        &mut self,
        id: &str,
        title: String,
        content: String,
        folder: Option<String>,
        is_pinned: bool,
    ) -> (changed: Result<Note, NotaroError>)
        ensures
            changed is Ok <==> old(self)@.holds(id@) && old(self)@.notes[id@].version < i32::MAX,
            changed matches Ok(note) ==> ({
                let edit = LocalEdit::Update {
                    title: title@,
                    content: content@,
                    folder: text_of(folder),
                    is_pinned,
                    now: note.updated_at,
                };
                Some(note@) == edited(old(self)@.notes[id@], edit) && final(self)@ == old(
                    self,
                )@.after_edit(id@, edit)
            }),
            changed matches Err(e) ==> final(self)@ == old(self)@ && is_refusal(old(self)@, id@, e),
    {
        self.update_note_at(id, title, content, folder, is_pinned, Timestamp::now())
    }

    /// Deletes a note as of `now`, in two stages: a live note becomes a
    /// tombstone, a tombstone is removed for good.
    pub fn delete_note_at(&mut self, id: &str, now: Timestamp) -> (done: Result<(), NotaroError>)
        ensures
            ({
                let before = old(self)@;
                let edit = LocalEdit::Delete { now };
                &&& done is Ok <==> before.holds(id@) && admits(before.notes[id@], edit)
                &&& done is Ok ==> final(self)@ == before.after_edit(id@, edit)
                &&& done matches Err(e) ==> final(self)@ == before && is_refusal(before, id@, e)
            }),
    {
        proof {
            use_type_invariant(&*self);
        }
        let key = id.to_owned();
        match find(&self.notes, &key) {
            None => Err(NotaroError::NotFound),
            Some(at) => {
                proof {
                    lemma_record_is_mapped(self.notes@, at as int);
                }
                if self.notes[at].is_deleted {
                    let mut records = self.take_records();
                    proof {
                        lemma_remove_removes(records@, at as int);
                    }
                    let _ = records.remove(at);
                    self.put_records(records);
                    Ok(())
                } else if self.notes[at].version == i32::MAX {
                    Err(NotaroError::VersionOverflow)
                } else {
                    let mut records = self.take_records();
                    let mut note = records[at].clone();
                    note.is_deleted = true;
                    note.updated_at = now;
                    note.version = note.version + 1;
                    proof {
                        lemma_update_inserts(records@, at as int, note);
                    }
                    records.set(at, note);
                    self.put_records(records);
                    Ok(())
                }
            },
        }
    }

    /// Deletes a note as of the current time, in two stages: a live note
    /// becomes a tombstone, a tombstone is removed for good.
    pub fn delete_note(&mut self, id: &str) -> (done: Result<(), NotaroError>)
        ensures
            done is Ok <==> old(self)@.holds(id@) && (old(self)@.notes[id@].is_deleted || old(
                self,
            )@.notes[id@].version < i32::MAX),
            done is Ok ==> exists|now: Timestamp|
                final(self)@ == #[trigger] old(self)@.after_edit(id@, LocalEdit::Delete { now }),
            done matches Err(e) ==> final(self)@ == old(self)@ && is_refusal(old(self)@, id@, e),
    {
        self.delete_note_at(id, Timestamp::now())
    }

    /// Brings a note back from the trash as of `now`. A live note is stamped
    /// and versioned all the same; an id that is not stored changes nothing.
    pub fn restore_note_at(&mut self, id: &str, now: Timestamp) -> (done: Result<(), NotaroError>)
        ensures
            ({
                let before = old(self)@;
                let edit = LocalEdit::Restore { now };
                &&& done is Ok <==> !before.holds(id@) || admits(before.notes[id@], edit)
                &&& done is Ok && before.holds(id@) ==> final(self)@ == before.after_edit(id@, edit)
                &&& done is Ok && !before.holds(id@) ==> final(self)@ == before
                &&& done matches Err(e) ==> e is VersionOverflow && final(self)@ == before
            }),
    {
        proof {
            use_type_invariant(&*self);
        }
        let key = id.to_owned();
        match find(&self.notes, &key) {
            None => {
                Ok(())
            },
            Some(at) => {
                proof {
                    lemma_record_is_mapped(self.notes@, at as int);
                }
                if self.notes[at].version == i32::MAX {
                    Err(NotaroError::VersionOverflow)
                } else {
                    let mut records = self.take_records();
                    let mut note = records[at].clone();
                    note.is_deleted = false;
                    note.updated_at = now;
                    note.version = note.version + 1;
                    proof {
                        lemma_update_inserts(records@, at as int, note);
                    }
                    records.set(at, note);
                    self.put_records(records);
                    Ok(())
                }
            },
        }
    }

    /// Brings a note back from the trash as of the current time.
    pub fn restore_note(&mut self, id: &str) -> (done: Result<(), NotaroError>)
        ensures
            done is Ok <==> !old(self)@.holds(id@) || old(self)@.notes[id@].version < i32::MAX,
            done is Ok && old(self)@.holds(id@) ==> exists|now: Timestamp|
                final(self)@ == #[trigger] old(self)@.after_edit(id@, LocalEdit::Restore { now }),
            done is Ok && !old(self)@.holds(id@) ==> final(self)@ == old(self)@,
            done matches Err(e) ==> e is VersionOverflow && final(self)@ == old(self)@,
    {
        self.restore_note_at(id, Timestamp::now())
    }

    /// The settings; a store that has none yet takes the defaults and keeps
    /// them.
    pub fn get_settings(&mut self) -> (got: Result<UserSettings, NotaroError>)
        ensures
            got matches Ok(settings) && settings@ == old(self)@.settings_in_force()
                && final(self)@ == old(self)@.with_settings(settings@),
    {
        proof {
            use_type_invariant(&*self);
        }
        match &self.settings {
            Some(stored) => Ok(stored.clone()),
            None => {
                let fresh = UserSettings::default();
                self.settings = Some(fresh.clone());
                Ok(fresh)
            },
        }
    }

    /// Replaces the settings, whatever they were.
    pub fn update_settings(&mut self, settings: &UserSettings) -> (done: Result<(), NotaroError>)
        ensures
            done is Ok,
            final(self)@ == old(self)@.with_settings(settings@),
    {
        proof {
            use_type_invariant(&*self);
        }
        self.settings = Some(settings.clone());
        Ok(())
    }

    /// Every note, tombstones included: pinned notes first, and among
    /// equally pinned ones the most recently updated first.
    pub fn get_all_notes(&self) -> (listed: Result<Vec<Note>, NotaroError>)
        ensures
            listed matches Ok(out) && enumerates(self@.notes, views_of(out@)) && in_list_order(
                views_of(out@),
            ),
    {
        proof {
            use_type_invariant(self);
        }
        let mut out: Vec<Note> = Vec::new();
        let mut k: usize = 0;
        while k < self.notes.len()
            invariant
                k <= self.notes@.len(),
                distinct_ids(self.notes@),
                enumerates(as_map(self.notes@.take(k as int)), views_of(out@)),
                in_list_order(views_of(out@)),
            decreases self.notes@.len() - k,
        {
            let record = self.notes[k].clone();
            let mut at: usize = 0;
            while at < out.len() && comes_before(&out[at], &record)
                invariant
                    at <= out@.len(),
                    forall|i: int| 0 <= i < at ==> lists_before(#[trigger] out@[i]@, record@),
                decreases out@.len() - at,
            {
                at += 1;
            }
            let ghost before = views_of(out@);
            proof {
                lemma_take_next(self.notes@, k as int);
                lemma_enumerates_insert(
                    as_map(self.notes@.take(k as int)),
                    before,
                    at as int,
                    record@,
                );
            }
            out.insert(at, record);
            proof {
                let after = views_of(out@);
                assert(after == before.insert(at as int, record@));
                assert forall|i: int, j: int| 0 <= i < j < after.len() implies lists_before(
                    #[trigger] after[i],
                    #[trigger] after[j],
                ) by {
                    if j < at {
                        assert(after[i] == before[i] && after[j] == before[j]);
                    } else if j == at {
                        assert(after[i] == before[i]);
                        assert(after[i] == out@[i]@);
                    } else if i < at {
                        assert(after[i] == before[i] && after[j] == before[j - 1]);
                    } else if i == at {
                        assert(after[j] == before[j - 1]);
                        assert(!lists_before(before[at as int], record@));
                        if j - 1 > at {
                            assert(lists_before(before[at as int], before[j - 1]));
                        }
                    } else {
                        assert(after[i] == before[i - 1] && after[j] == before[j - 1]);
                    }
                }
            }
            k += 1;
        }
        proof {
            assert(self.notes@.take(k as int) == self.notes@);
        }
        Ok(out)
    }

    /// Every record whose version is above `version`, tombstones included.
    pub fn get_changes_since(&self, version: i32) -> (delta: Result<Vec<Note>, NotaroError>)
        ensures
            delta matches Ok(out) && enumerates(
                changes_after(self@.notes, version as int),
                views_of(out@),
            ),
    {
        proof {
            use_type_invariant(self);
        }
        let mut out: Vec<Note> = Vec::new();
        let mut k: usize = 0;
        while k < self.notes.len()
            invariant
                k <= self.notes@.len(),
                distinct_ids(self.notes@),
                enumerates(
                    changes_after(as_map(self.notes@.take(k as int)), version as int),
                    views_of(out@),
                ),
            decreases self.notes@.len() - k,
        {
            let ghost head = as_map(self.notes@.take(k as int));
            let ghost next = self.notes@[k as int]@;
            proof {
                lemma_take_next(self.notes@, k as int);
            }
            if self.notes[k].version > version {
                let ghost before = views_of(out@);
                proof {
                    lemma_enumerates_insert(
                        changes_after(head, version as int),
                        before,
                        before.len() as int,
                        next,
                    );
                    assert(changes_after(head.insert(next.id, next), version as int)
                        =~= changes_after(head, version as int).insert(next.id, next));
                }
                out.push(self.notes[k].clone());
                proof {
                    assert(views_of(out@) == before.insert(before.len() as int, next));
                }
            } else {
                proof {
                    assert(changes_after(head.insert(next.id, next), version as int)
                        =~= changes_after(head, version as int));
                }
            }
            k += 1;
        }
        proof {
            assert(self.notes@.take(k as int) == self.notes@);
        }
        Ok(out)
    }

    /// The highest version among the stored notes, or 0 for a store without
    /// notes.
    pub fn current_version(&self) -> (version: i32)
        ensures
            is_highest_version(self@.notes, version as int),
    {
        proof {
            use_type_invariant(self);
        }
        if self.notes.len() == 0 {
            return 0;
        }
        let mut best: i32 = self.notes[0].version;
        let mut k: usize = 1;
        while k < self.notes.len()
            invariant
                1 <= k <= self.notes@.len(),
                exists|j: int| 0 <= j < k && (#[trigger] self.notes@[j]).version == best,
                forall|j: int| 0 <= j < k ==> (#[trigger] self.notes@[j]).version <= best,
            decreases self.notes@.len() - k,
        {
            if self.notes[k].version > best {
                best = self.notes[k].version;
            }
            k += 1;
        }
        proof {
            let records = self.notes@;
            let j = choose|j: int| 0 <= j < k && (#[trigger] records[j]).version == best;
            lemma_record_is_mapped(records, j);
            assert forall|id: Seq<char>| #[trigger]
                as_map(records).contains_key(id) implies as_map(records)[id].version <= best by {
                let p = place_of(records, id);
                assert(records[p].version <= best);
            }
        }
        best
    }

    /// The answer to a pull: every record whose version is above
    /// `since_version`, with the store's highest version, so that the peer
    /// can move its mark even where nothing has changed.
    pub fn pull_response(&self, since_version: i32) -> (reply: Result<SyncMessage, NotaroError>)
        ensures
            reply matches Ok(SyncMessage::PullResponse { changes, current_version }) && enumerates(
                changes_after(self@.notes, since_version as int),
                views_of(changes@),
            ) && is_highest_version(self@.notes, current_version as int),
    {
        let current_version = self.current_version();
        match self.get_changes_since(since_version) {
            Ok(changes) => Ok(SyncMessage::PullResponse { changes, current_version }),
            Err(e) => Err(e),
        }
    }

    /// Merges a batch of records from another replica, in order. A record
    /// with a new id is taken over as it is; one with a known id replaces
    /// the local record only where its version is strictly higher.
    pub fn merge_changes(&mut self, remote_changes: Vec<Note>) -> (done: Result<(), NotaroError>)
        ensures
            done is Ok,
            final(self)@ == old(self)@.merged(views_of(remote_changes@)),
    {
        let mut records = self.take_records();
        let ghost start = records@;
        let ghost batch = views_of(remote_changes@);
        let mut i: usize = 0;
        while i < remote_changes.len()
            invariant
                i <= remote_changes@.len(),
                batch == views_of(remote_changes@),
                distinct_ids(records@),
                as_map(records@) == merge_all(as_map(start), batch.take(i as int)),
            decreases remote_changes@.len() - i,
        {
            let incoming = remote_changes[i].clone();
            let ghost before = records@;
            proof {
                assert(batch.take(i + 1).drop_last() == batch.take(i as int));
                assert(batch.take(i + 1).last() == incoming@);
            }
            match find(&records, &incoming.id) {
                Some(at) => {
                    proof {
                        lemma_record_is_mapped(before, at as int);
                    }
                    if incoming.version > records[at].version {
                        proof {
                            lemma_update_inserts(before, at as int, incoming);
                        }
                        records.set(at, incoming);
                    }
                },
                None => {
                    proof {
                        lemma_push_inserts(before, incoming);
                    }
                    records.push(incoming);
                },
            }
            i += 1;
        }
        proof {
            assert(batch.take(i as int) == batch);
        }
        self.put_records(records);
        Ok(())
    }
}

/// Whether `a` may stand before `b` in a listing.
pub fn comes_before(a: &Note, b: &Note) -> (yes: bool)
    ensures
        yes == lists_before(a@, b@),
{
    if a.is_pinned != b.is_pinned {
        a.is_pinned
    } else {
        a.updated_at.is_at_or_after(&b.updated_at)
    }
}

/// Where the id stands among the records, if it does.
fn find(records: &Vec<Note>, id: &String) -> (found: Option<usize>)
    ensures
        found matches Some(i) ==> i < records@.len() && records@[i as int].id@ == id@,
        found is None ==> !holds_id(records@, id@),
{
    let mut i: usize = 0;
    while i < records.len()
        invariant
            i <= records@.len(),
            forall|k: int| 0 <= k < i ==> (#[trigger] records@[k]).id@ != id@,
        decreases records@.len() - i,
    {
        if records[i].id == *id {
            return Some(i);
        }
        i += 1;
    }
    None
}

// What changes to the list of records do to the map of notes.

/// A record is found in the map under its id.
proof fn lemma_record_is_mapped(records: Seq<Note>, i: int)
    requires
        distinct_ids(records),
        0 <= i < records.len(),
    ensures
        as_map(records).contains_key(records[i].id@),
        as_map(records)[records[i].id@] == records[i]@,
{
    let id = records[i].id@;
    let p = place_of(records, id);
    assert(holds_id(records, id));
    assert(0 <= p < records.len() && records[p].id@ == id);
    if p < i {
        assert(records[p].id@ != records[i].id@);
    } else if i < p {
        assert(records[i].id@ != records[p].id@);
    }
}

/// Appending a record under a new id files it in the map.
proof fn lemma_push_inserts(records: Seq<Note>, note: Note)
    requires
        distinct_ids(records),
        !holds_id(records, note.id@),
    ensures
        distinct_ids(records.push(note)),
        as_map(records.push(note)) == as_map(records).insert(note.id@, note@),
{
    let after = records.push(note);
    assert forall|i: int, j: int| 0 <= i < j < after.len() implies (#[trigger] after[i]).id@ != (
    #[trigger] after[j]).id@ by {
        if j < records.len() {
            assert(after[i] == records[i] && after[j] == records[j]);
        } else {
            assert(after[i] == records[i]);
            assert(after[j] == note);
        }
    }
    let want = as_map(records).insert(note.id@, note@);
    assert forall|id: Seq<char>| as_map(after).contains_key(id) <==> want.contains_key(id) by {
        if holds_id(after, id) {
            let p = place_of(after, id);
            if p < records.len() {
                assert(records[p] == after[p]);
            }
        }
        if holds_id(records, id) {
            let p = place_of(records, id);
            assert(after[p] == records[p]);
        }
        if id == note.id@ {
            assert(after[records.len() as int] == note);
        }
    }
    assert forall|id: Seq<char>| as_map(after).contains_key(id) implies as_map(after)[id]
        == want[id] by {
        let p = place_of(after, id);
        lemma_record_is_mapped(after, p);
        if p < records.len() {
            assert(after[p] == records[p]);
            lemma_record_is_mapped(records, p);
        } else {
            assert(after[p] == note);
        }
    }
    assert(as_map(after) =~= want);
}

/// Replacing a record by one of the same id replaces it in the map.
proof fn lemma_update_inserts(records: Seq<Note>, i: int, note: Note)
    requires
        distinct_ids(records),
        0 <= i < records.len(),
        records[i].id@ == note.id@,
    ensures
        distinct_ids(records.update(i, note)),
        as_map(records.update(i, note)) == as_map(records).insert(note.id@, note@),
{
    let after = records.update(i, note);
    assert forall|a: int, b: int| 0 <= a < b < after.len() implies (#[trigger] after[a]).id@ != (
    #[trigger] after[b]).id@ by {
        assert(after[a].id@ == records[a].id@);
        assert(after[b].id@ == records[b].id@);
    }
    let want = as_map(records).insert(note.id@, note@);
    assert forall|id: Seq<char>| as_map(after).contains_key(id) <==> want.contains_key(id) by {
        if holds_id(after, id) {
            let p = place_of(after, id);
            assert(after[p].id@ == records[p].id@);
        }
        if holds_id(records, id) {
            let p = place_of(records, id);
            assert(after[p].id@ == records[p].id@);
        }
        if id == note.id@ {
            assert(after[i] == note);
        }
    }
    assert forall|id: Seq<char>| as_map(after).contains_key(id) implies as_map(after)[id]
        == want[id] by {
        let p = place_of(after, id);
        lemma_record_is_mapped(after, p);
        if p == i {
            assert(after[p] == note);
        } else {
            assert(after[p] == records[p]);
            lemma_record_is_mapped(records, p);
        }
    }
    assert(as_map(after) =~= want);
}

/// Taking a record out takes it out of the map.
proof fn lemma_remove_removes(records: Seq<Note>, i: int)
    requires
        distinct_ids(records),
        0 <= i < records.len(),
    ensures
        distinct_ids(records.remove(i)),
        as_map(records.remove(i)) == as_map(records).remove(records[i].id@),
{
    let after = records.remove(i);
    assert forall|a: int| 0 <= a < after.len() implies #[trigger] after[a] == (if a < i {
        records[a]
    } else {
        records[a + 1]
    }) by {}
    assert forall|a: int, b: int| 0 <= a < b < after.len() implies (#[trigger] after[a]).id@ != (
    #[trigger] after[b]).id@ by {
        let x = if a < i { a } else { a + 1 };
        let y = if b < i { b } else { b + 1 };
        assert(after[a] == records[x] && after[b] == records[y]);
    }
    let want = as_map(records).remove(records[i].id@);
    assert forall|id: Seq<char>| as_map(after).contains_key(id) <==> want.contains_key(id) by {
        if holds_id(after, id) {
            let p = place_of(after, id);
            let x = if p < i { p } else { p + 1 };
            assert(after[p] == records[x]);
            if x < i {
                assert(records[x].id@ != records[i].id@);
            } else {
                assert(records[i].id@ != records[x].id@);
            }
        }
        if holds_id(records, id) && id != records[i].id@ {
            let p = place_of(records, id);
            if p < i {
                assert(after[p] == records[p]);
            } else {
                assert(after[p - 1] == records[p]);
            }
        }
    }
    assert forall|id: Seq<char>| as_map(after).contains_key(id) implies as_map(after)[id]
        == want[id] by {
        let p = place_of(after, id);
        let x = if p < i { p } else { p + 1 };
        assert(after[p] == records[x]);
        lemma_record_is_mapped(after, p);
        lemma_record_is_mapped(records, x);
    }
    assert(as_map(after) =~= want);
}

/// The first records of a store, with the next one, are the map of the first
/// with that one added.
proof fn lemma_take_next(records: Seq<Note>, k: int)
    requires
        distinct_ids(records),
        0 <= k < records.len(),
    ensures
        distinct_ids(records.take(k)),
        !as_map(records.take(k)).contains_key(records[k].id@),
        as_map(records.take(k + 1)) == as_map(records.take(k)).insert(records[k].id@, records[k]@),
{
    let head = records.take(k);
    assert forall|i: int, j: int| 0 <= i < j < head.len() implies (#[trigger] head[i]).id@ != (
    #[trigger] head[j]).id@ by {
        assert(head[i] == records[i] && head[j] == records[j]);
    }
    if holds_id(head, records[k].id@) {
        let p = place_of(head, records[k].id@);
        assert(head[p] == records[p]);
        assert(records[p].id@ != records[k].id@);
    }
    assert(records.take(k + 1) == head.push(records[k]));
    lemma_push_inserts(head, records[k]);
}

} // verus!
