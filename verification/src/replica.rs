//! The replica as mathematics: the notes of one store as a map from id to
//! record, and every change to it as a function on that map.
//!
//! The store's operations are specified by these functions, and the laws of
//! replication are proved of them.

use crate::models::default_settings;
use crate::models::NoteView;
use crate::models::UserSettingsView;
use crate::time::Timestamp;
use vstd::prelude::*;

verus! {

/// Notes by id.
pub type Notes = Map<Seq<char>, NoteView>;

/// What one store holds.
pub struct StoreView {
    /// The storage location that the store was made for.
    pub location: Seq<char>,
    /// The notes, tombstones included.
    pub notes: Notes,
    /// The settings, once they have been read or written.
    pub settings: Option<UserSettingsView>,
}

// Local changes to one record.

/// Whether a record's version can still be raised.
pub open spec fn can_advance(note: NoteView) -> bool {
    note.version < i32::MAX
}

/// The record after a local edit of its text, folder and pin: stamped `now`,
/// one version on.
pub open spec fn updated(
    note: NoteView,
    title: Seq<char>,
    content: Seq<char>,
    folder: Option<Seq<char>>,
    is_pinned: bool,
    now: Timestamp,
) -> NoteView {
    NoteView { title, content, folder, is_pinned, updated_at: now, version: note.version + 1, ..note }
}

/// The record turned into a tombstone: stamped `now`, one version on.
pub open spec fn tombstoned(note: NoteView, now: Timestamp) -> NoteView {
    NoteView { is_deleted: true, updated_at: now, version: note.version + 1, ..note }
}

/// The record brought back from the trash: stamped `now`, one version on.
pub open spec fn restored(note: NoteView, now: Timestamp) -> NoteView {
    NoteView { is_deleted: false, updated_at: now, version: note.version + 1, ..note }
}

/// One local change to a stored note, with the instant it is made at.
pub enum LocalEdit {
    /// New text, folder and pin.
    Update {
        title: Seq<char>,
        content: Seq<char>,
        folder: Option<Seq<char>>,
        is_pinned: bool,
        now: Timestamp,
    },
    /// A delete: the first makes a tombstone, the second removes it.
    Delete { now: Timestamp },
    /// A restore.
    Restore { now: Timestamp },
}

/// The record after one local change; `None` where the change removes it for
/// good, which is what a delete does to a tombstone.
pub open spec fn edited(note: NoteView, edit: LocalEdit) -> Option<NoteView> {
    match edit {
        LocalEdit::Update { title, content, folder, is_pinned, now } => Some(
            updated(note, title, content, folder, is_pinned, now),
        ),
        LocalEdit::Delete { now } => if note.is_deleted {
            None
        } else {
            Some(tombstoned(note, now))
        },
        LocalEdit::Restore { now } => Some(restored(note, now)),
    }
}

/// Whether the change can be made to the record: its version must have room
/// to rise, unless the change removes the record.
pub open spec fn admits(note: NoteView, edit: LocalEdit) -> bool {
    edited(note, edit) is None || can_advance(note)
}

/// The record after a run of local changes, in order; `None` once one of
/// them has removed it.
pub open spec fn edited_by_all(note: NoteView, edits: Seq<LocalEdit>) -> Option<NoteView>
    decreases edits.len(),
{
    if edits.len() == 0 {
        Some(note)
    } else {
        match edited_by_all(note, edits.drop_last()) {
            Some(so_far) => edited(so_far, edits.last()),
            None => None,
        }
    }
}

// Merging records from another replica.

/// Whether an incoming record replaces the local one: only a strictly higher
/// version does, so on equal versions the local record stays.
pub open spec fn supersedes(incoming: NoteView, local: NoteView) -> bool {
    incoming.version > local.version
}

/// The notes after one incoming record is merged: it is taken over whole
/// where its id is new or its version is higher, and dropped otherwise.
pub open spec fn merge_one(notes: Notes, incoming: NoteView) -> Notes {
    if notes.contains_key(incoming.id) && !supersedes(incoming, notes[incoming.id]) {
        notes
    } else {
        notes.insert(incoming.id, incoming)
    }
}

/// The notes after a batch is merged, record by record from the front.
pub open spec fn merge_all(notes: Notes, batch: Seq<NoteView>) -> Notes
    decreases batch.len(),
{
    if batch.len() == 0 {
        notes
    } else {
        merge_one(merge_all(notes, batch.drop_last()), batch.last())
    }
}

// The store as a whole.

impl StoreView {
    /// Whether a note is stored under the id.
    pub open spec fn holds(self, id: Seq<char>) -> bool {
        self.notes.contains_key(id)
    }

    /// The same store with other notes.
    pub open spec fn with_notes(self, notes: Notes) -> StoreView {
        StoreView { notes, ..self }
    }

    /// The same store with the given settings.
    pub open spec fn with_settings(self, settings: UserSettingsView) -> StoreView {
        StoreView { settings: Some(settings), ..self }
    }

    /// The settings in force: the stored ones, or the defaults while none
    /// are stored.
    pub open spec fn settings_in_force(self) -> UserSettingsView {
        match self.settings {
            Some(stored) => stored,
            None => default_settings(),
        }
    }

    /// The same store with the note filed under its id, in place of the one
    /// that may be there.
    pub open spec fn with_note(self, note: NoteView) -> StoreView {
        self.with_notes(self.notes.insert(note.id, note))
    }

    /// The store after a local change to the note under `id`.
    pub open spec fn after_edit(self, id: Seq<char>, edit: LocalEdit) -> StoreView {
        match edited(self.notes[id], edit) {
            Some(next) => self.with_notes(self.notes.insert(id, next)),
            None => self.with_notes(self.notes.remove(id)),
        }
    }

    /// The store after a batch from another replica is merged.
    pub open spec fn merged(self, batch: Seq<NoteView>) -> StoreView {
        self.with_notes(merge_all(self.notes, batch))
    }
}

// What a store hands out.

/// Every record is filed under its own id.
pub open spec fn keyed_by_id(notes: Notes) -> bool {
    forall|id: Seq<char>| #[trigger] notes.contains_key(id) ==> notes[id].id == id
}

/// `out` lists each record of `notes` exactly once.
pub open spec fn enumerates(notes: Notes, out: Seq<NoteView>) -> bool {
    &&& forall|i: int|
        0 <= i < out.len() ==> notes.contains_key((#[trigger] out[i]).id)
            && notes[out[i].id] == out[i]
    &&& forall|i: int, j: int|
        0 <= i < j < out.len() ==> (#[trigger] out[i]).id != (#[trigger] out[j]).id
    &&& forall|id: Seq<char>| #[trigger]
        notes.contains_key(id) ==> exists|i: int| 0 <= i < out.len() && (#[trigger] out[i]).id == id
}

/// The records whose version is above `version`, tombstones among them.
pub open spec fn changes_after(notes: Notes, version: int) -> Notes {
    Map::new(
        |id: Seq<char>| notes.contains_key(id) && notes[id].version > version,
        |id: Seq<char>| notes[id],
    )
}

/// Whether `version` is the highest version among the notes, or 0 where
/// there are none: the mark up to which a peer that has everything is served.
pub open spec fn is_highest_version(notes: Notes, version: int) -> bool {
    if exists|id: Seq<char>| notes.contains_key(id) {
        &&& exists|id: Seq<char>| #[trigger] notes.contains_key(id) && notes[id].version == version
        &&& forall|id: Seq<char>| #[trigger] notes.contains_key(id) ==> notes[id].version <= version
    } else {
        version == 0
    }
}

/// Whether `a` may stand before `b` in a listing: pinned notes first, and
/// among equally pinned ones the later update first.
pub open spec fn lists_before(a: NoteView, b: NoteView) -> bool {
    if a.is_pinned != b.is_pinned {
        a.is_pinned
    } else {
        a.updated_at.at_or_after(b.updated_at)
    }
}

/// The run is in listing order throughout.
pub open spec fn in_list_order(out: Seq<NoteView>) -> bool {
    forall|i: int, j: int|
        0 <= i < j < out.len() ==> lists_before(#[trigger] out[i], #[trigger] out[j])
}

/// Putting a record with a new id anywhere into a listing gives a listing of
/// the notes with that record added.
pub proof fn lemma_enumerates_insert(notes: Notes, out: Seq<NoteView>, at: int, record: NoteView)
    requires
        enumerates(notes, out),
        !notes.contains_key(record.id),
        0 <= at <= out.len(),
    ensures
        enumerates(notes.insert(record.id, record), out.insert(at, record)),
{
    let grown = notes.insert(record.id, record);
    let longer = out.insert(at, record);
    assert forall|i: int| 0 <= i < longer.len() implies grown.contains_key(
        (#[trigger] longer[i]).id,
    ) && grown[longer[i].id] == longer[i] by {
        if i < at {
            assert(longer[i] == out[i]);
        } else if i > at {
            assert(longer[i] == out[i - 1]);
        }
    }
    assert forall|i: int, j: int| 0 <= i < j < longer.len() implies (#[trigger] longer[i]).id != (
    #[trigger] longer[j]).id by {
        let a = if i < at {
            out[i]
        } else {
            out[i - 1]
        };
        let b = if j < at {
            out[j]
        } else {
            out[j - 1]
        };
        if i != at {
            assert(longer[i] == a);
        }
        if j != at {
            assert(longer[j] == b);
        }
    }
    assert forall|id: Seq<char>| #[trigger] grown.contains_key(id) implies exists|i: int|
        0 <= i < longer.len() && (#[trigger] longer[i]).id == id by {
        if id == record.id {
            assert(longer[at] == record);
        } else {
            let i = choose|i: int| 0 <= i < out.len() && (#[trigger] out[i]).id == id;
            if i < at {
                assert(longer[i] == out[i]);
            } else {
                assert(longer[i + 1] == out[i]);
            }
        }
    }
}

// The laws of local change.

/// An update, a delete that leaves a tombstone and a restore each raise the
/// version by exactly one, and keep the id and the creation time.
pub proof fn law_edit_raises_version_by_one(note: NoteView, edit: LocalEdit)
    ensures
        edited(note, edit) matches Some(next) ==> next.version == note.version + 1 && next.id
            == note.id && next.created_at == note.created_at,
{
}

/// While a record is still stored, its version has risen by exactly the
/// number of changes made to it, whatever they were.
pub proof fn law_version_counts_edits(note: NoteView, edits: Seq<LocalEdit>)
    ensures
        edited_by_all(note, edits) matches Some(last) ==> last.version == note.version
            + edits.len() && last.id == note.id && last.created_at == note.created_at,
    decreases edits.len(),
{
    if edits.len() > 0 {
        law_version_counts_edits(note, edits.drop_last());
    }
}

/// The first delete of a live note leaves it in every listing, marked
/// deleted; the second delete takes it out of every listing.
pub proof fn law_tombstone_visibility(
    store: StoreView,
    id: Seq<char>,
    first: Timestamp,
    second: Timestamp,
    listed_after_first: Seq<NoteView>,
    listed_after_second: Seq<NoteView>,
)
    requires
        store.holds(id),
        !store.notes[id].is_deleted,
        enumerates(
            store.after_edit(id, LocalEdit::Delete { now: first }).notes,
            listed_after_first,
        ),
        enumerates(
            store.after_edit(id, LocalEdit::Delete { now: first }).after_edit(
                id,
                LocalEdit::Delete { now: second },
            ).notes,
            listed_after_second,
        ),
    ensures
        exists|i: int|
            0 <= i < listed_after_first.len() && (#[trigger] listed_after_first[i]).id == id
                && listed_after_first[i].is_deleted,
        forall|i: int|
            0 <= i < listed_after_second.len() ==> (#[trigger] listed_after_second[i]).id != id,
{
    let once = store.after_edit(id, LocalEdit::Delete { now: first }).notes;
    assert(once.contains_key(id));
    let i = choose|i: int|
        0 <= i < listed_after_first.len() && (#[trigger] listed_after_first[i]).id == id;
    assert(once[listed_after_first[i].id] == listed_after_first[i]);
}

// The laws of merging.

/// Merging one record never removes a record and never lowers a version.
pub proof fn lemma_merge_one_keeps(notes: Notes, incoming: NoteView, id: Seq<char>)
    requires
        notes.contains_key(id),
    ensures
        merge_one(notes, incoming).contains_key(id),
        merge_one(notes, incoming)[id].version >= notes[id].version,
{
}

/// A merge never removes a record and never lowers its version, whatever the
/// batch holds.
pub proof fn law_merge_never_lowers_version(notes: Notes, batch: Seq<NoteView>, id: Seq<char>)
    requires
        notes.contains_key(id),
    ensures
        merge_all(notes, batch).contains_key(id),
        merge_all(notes, batch)[id].version >= notes[id].version,
    decreases batch.len(),
{
    if batch.len() > 0 {
        law_merge_never_lowers_version(notes, batch.drop_last(), id);
        lemma_merge_one_keeps(merge_all(notes, batch.drop_last()), batch.last(), id);
    }
}

/// After a batch is merged, the store holds every id of the batch at a
/// version at least as high as the batch's.
pub proof fn lemma_merge_all_covers(notes: Notes, batch: Seq<NoteView>, k: int)
    requires
        0 <= k < batch.len(),
    ensures
        merge_all(notes, batch).contains_key(batch[k].id),
        merge_all(notes, batch)[batch[k].id].version >= batch[k].version,
    decreases batch.len(),
{
    let before = merge_all(notes, batch.drop_last());
    if k < batch.len() - 1 {
        lemma_merge_all_covers(notes, batch.drop_last(), k);
        assert(batch.drop_last()[k] == batch[k]);
        lemma_merge_one_keeps(before, batch.last(), batch[k].id);
    }
}

/// A batch that brings nothing newer changes nothing.
pub proof fn lemma_merge_all_absorbed(notes: Notes, batch: Seq<NoteView>)
    requires
        forall|k: int|
            0 <= k < batch.len() ==> notes.contains_key((#[trigger] batch[k]).id)
                && notes[batch[k].id].version >= batch[k].version,
    ensures
        merge_all(notes, batch) == notes,
    decreases batch.len(),
{
    if batch.len() > 0 {
        assert forall|k: int| 0 <= k < batch.drop_last().len() implies notes.contains_key(
            (#[trigger] batch.drop_last()[k]).id,
        ) && notes[batch.drop_last()[k].id].version >= batch.drop_last()[k].version by {
            assert(batch.drop_last()[k] == batch[k]);
        }
        lemma_merge_all_absorbed(notes, batch.drop_last());
        assert(notes.contains_key(batch[batch.len() - 1].id));
    }
}

/// Merging a batch of one record is merging that record.
pub proof fn lemma_merge_all_single(notes: Notes, incoming: NoteView)
    ensures
        merge_all(notes, seq![incoming]) == merge_one(notes, incoming),
{
    let batch = seq![incoming];
    assert(batch.drop_last().len() == 0);
    assert(merge_all(notes, batch.drop_last()) == notes);
    assert(batch.last() == incoming);
}

/// Merging a batch a second time leaves the store as the first merge left
/// it.
pub proof fn law_merge_idempotent(store: StoreView, batch: Seq<NoteView>)
    ensures
        store.merged(batch).merged(batch) == store.merged(batch),
{
    let once = merge_all(store.notes, batch);
    assert forall|k: int| 0 <= k < batch.len() implies once.contains_key((#[trigger] batch[k]).id)
        && once[batch[k].id].version >= batch[k].version by {
        lemma_merge_all_covers(store.notes, batch, k);
    }
    lemma_merge_all_absorbed(once, batch);
}

/// Last write wins: where the incoming record's version is strictly higher
/// than the local one's, the merge leaves exactly the incoming record under
/// that id, and every other record as it was.
pub proof fn law_newer_version_wins(store: StoreView, incoming: NoteView)
    requires
        store.holds(incoming.id),
        incoming.version > store.notes[incoming.id].version,
    ensures
        store.merged(seq![incoming]) == store.with_note(incoming),
        store.merged(seq![incoming]).notes[incoming.id] == incoming,
{
    lemma_merge_all_single(store.notes, incoming);
}

/// A stale merge is a no-op: where the incoming record's version is not
/// higher than the local one's, equal versions included, the merge leaves
/// the store as it was.
pub proof fn law_stale_version_is_dropped(store: StoreView, incoming: NoteView)
    requires
        store.holds(incoming.id),
        incoming.version <= store.notes[incoming.id].version,
    ensures
        store.merged(seq![incoming]) == store,
{
    lemma_merge_all_single(store.notes, incoming);
}

/// A record with an id that the store does not hold is taken over as it is.
pub proof fn law_unknown_id_is_taken_over(store: StoreView, incoming: NoteView)
    requires
        !store.holds(incoming.id),
    ensures
        store.merged(seq![incoming]) == store.with_note(incoming),
{
    lemma_merge_all_single(store.notes, incoming);
}

/// A merge keeps every record filed under its own id.
pub proof fn law_merge_keeps_keys(notes: Notes, batch: Seq<NoteView>)
    requires
        keyed_by_id(notes),
    ensures
        keyed_by_id(merge_all(notes, batch)),
    decreases batch.len(),
{
    if batch.len() > 0 {
        law_merge_keeps_keys(notes, batch.drop_last());
    }
}

// The law of deltas.

/// A listing of the changes after `version` holds a record exactly when the
/// store holds it at a higher version, tombstone or not.
pub proof fn law_delta_is_exact(notes: Notes, version: int, delta: Seq<NoteView>, record: NoteView)
    requires
        enumerates(changes_after(notes, version), delta),
    ensures
        delta.contains(record) <==> notes.contains_key(record.id) && notes[record.id] == record
            && record.version > version,
{
    let changed = changes_after(notes, version);
    if delta.contains(record) {
        let i = choose|i: int| 0 <= i < delta.len() && delta[i] == record;
        assert(changed.contains_key(delta[i].id) && changed[delta[i].id] == delta[i]);
    }
    if notes.contains_key(record.id) && notes[record.id] == record && record.version > version {
        assert(changed.contains_key(record.id));
        let i = choose|i: int| 0 <= i < delta.len() && (#[trigger] delta[i]).id == record.id;
        assert(changed[delta[i].id] == delta[i]);
    }
}

} // verus!
