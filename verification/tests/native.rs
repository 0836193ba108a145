use notaro_core::error::NotaroError;
use notaro_core::native::{
    create_note, delete_note, get_all_notes, get_settings, init_db, load_notes, restore_note,
    to_notes, update_note, update_settings, ApiError, NativeDb, Note, UserSettings,
};
use notaro_core::time::Timestamp;
use notaro_core::DatabaseConnection;

fn ready() -> NativeDb {
    let mut handle = NativeDb::new();
    init_db(&mut handle, "/tmp/notaro-docs".to_string()).unwrap();
    handle
}

fn row(id: &str, title: &str, updated_at: &str, version: i32) -> Note {
    Note {
        id: id.to_string(),
        title: title.to_string(),
        content: String::new(),
        folder: None,
        is_pinned: false,
        created_at: "2024-01-01T00:00:00+00:00".to_string(),
        updated_at: updated_at.to_string(),
        version,
        is_deleted: false,
    }
}

#[test]
fn every_call_before_init_says_not_initialized() {
    let mut handle = NativeDb::new();
    assert!(!handle.is_initialized());
    assert!(matches!(get_all_notes(&handle), Err(ApiError::NotInitialized)));
    assert!(matches!(
        create_note(&mut handle, "t".into(), "c".into(), None),
        Err(ApiError::NotInitialized)
    ));
    assert!(matches!(
        update_note(&mut handle, "x".into(), "t".into(), "c".into(), None, false),
        Err(ApiError::NotInitialized)
    ));
    assert!(matches!(delete_note(&mut handle, "x".into()), Err(ApiError::NotInitialized)));
    assert!(matches!(restore_note(&mut handle, "x".into()), Err(ApiError::NotInitialized)));
    assert!(matches!(get_settings(&mut handle), Err(ApiError::NotInitialized)));
    let settings = UserSettings {
        theme_mode: "dark".into(),
        accent_hue: 1,
        font_family: "mono".into(),
        font_size: 9,
    };
    assert!(matches!(update_settings(&mut handle, settings), Err(ApiError::NotInitialized)));
    assert!(matches!(load_notes(&mut handle, vec![]), Err(ApiError::NotInitialized)));
    assert!(!handle.is_initialized());
}

#[test]
fn not_initialized_is_written_out_as_a_hint() {
    assert_eq!(
        ApiError::NotInitialized.message(),
        "Database not initialized. Call init_db first."
    );
}

#[test]
fn store_failure_is_written_out_as_its_cause() {
    assert_eq!(ApiError::Store(NotaroError::NotFound).message(), "Record not found");
}

#[test]
fn init_gives_an_empty_store() {
    let handle = ready();
    assert!(handle.is_initialized());
    assert!(get_all_notes(&handle).unwrap().is_empty());
}

#[test]
fn attached_store_is_served() {
    let mut store = DatabaseConnection::new(":memory:").unwrap();
    let at = Timestamp::from_parts(1_700_000_000, 0).unwrap();
    store
        .insert_note(notaro_core::Note::new_at("a".into(), "A".into(), "".into(), None, at))
        .unwrap();
    let mut handle = NativeDb::new();
    handle.attach(store);
    let rows = get_all_notes(&handle).unwrap();
    assert_eq!(rows.len(), 1);
    assert_eq!(rows[0].id, "a");
    assert_eq!(rows[0].created_at, "2023-11-14T22:13:20+00:00");
    assert_eq!(rows[0].updated_at, "2023-11-14T22:13:20+00:00");
}

#[test]
fn created_note_comes_back_as_a_row_with_readable_timestamps() {
    let mut handle = ready();
    let made = create_note(&mut handle, "T".into(), "C".into(), Some("F".into())).unwrap();
    assert_eq!(made.title, "T");
    assert_eq!(made.content, "C");
    assert_eq!(made.folder, Some("F".to_string()));
    assert_eq!(made.version, 1);
    assert!(!made.is_pinned);
    assert!(!made.is_deleted);
    assert_eq!(made.id.len(), 36);
    assert_eq!(made.created_at, made.updated_at);
    assert!(Timestamp::parse_rfc3339(&made.created_at).is_ok());
    assert_eq!(get_all_notes(&handle).unwrap(), vec![made]);
}

#[test]
fn update_delete_and_restore_each_raise_the_version() {
    let mut handle = ready();
    let made = create_note(&mut handle, "T".into(), "C".into(), None).unwrap();
    let changed =
        update_note(&mut handle, made.id.clone(), "T2".into(), "C2".into(), None, true).unwrap();
    assert_eq!(changed.version, 2);
    assert_eq!(changed.title, "T2");
    assert!(changed.is_pinned);
    assert_eq!(changed.created_at, made.created_at);

    delete_note(&mut handle, made.id.clone()).unwrap();
    let rows = get_all_notes(&handle).unwrap();
    assert_eq!(rows[0].version, 3);
    assert!(rows[0].is_deleted);

    restore_note(&mut handle, made.id.clone()).unwrap();
    let rows = get_all_notes(&handle).unwrap();
    assert_eq!(rows[0].version, 4);
    assert!(!rows[0].is_deleted);

    delete_note(&mut handle, made.id.clone()).unwrap();
    delete_note(&mut handle, made.id.clone()).unwrap();
    assert!(get_all_notes(&handle).unwrap().is_empty());
}

#[test]
fn unknown_id_is_reported_as_the_stores_not_found() {
    let mut handle = ready();
    assert!(matches!(
        delete_note(&mut handle, "nope".into()),
        Err(ApiError::Store(NotaroError::NotFound))
    ));
    assert!(matches!(
        update_note(&mut handle, "nope".into(), "t".into(), "c".into(), None, false),
        Err(ApiError::Store(NotaroError::NotFound))
    ));
    restore_note(&mut handle, "nope".into()).unwrap();
}

#[test]
fn settings_default_then_follow_the_last_update() {
    let mut handle = ready();
    let first = get_settings(&mut handle).unwrap();
    assert_eq!(
        first,
        UserSettings {
            theme_mode: "system".into(),
            accent_hue: 250,
            font_family: "sans".into(),
            font_size: 14,
        }
    );
    let wanted = UserSettings {
        theme_mode: "dark".into(),
        accent_hue: 120,
        font_family: "mono".into(),
        font_size: 18,
    };
    update_settings(
        &mut handle,
        UserSettings {
            theme_mode: "dark".into(),
            accent_hue: 120,
            font_family: "mono".into(),
            font_size: 18,
        },
    )
    .unwrap();
    assert_eq!(get_settings(&mut handle).unwrap(), wanted);
}

#[test]
fn settings_convert_both_ways_field_by_field() {
    let core = notaro_core::UserSettings {
        theme_mode: "light".into(),
        accent_hue: 33,
        font_family: "serif".into(),
        font_size: 11,
    };
    let dto = UserSettings::from(core.clone());
    assert_eq!(dto.theme_mode, "light");
    assert_eq!(dto.accent_hue, 33);
    assert_eq!(dto.font_family, "serif");
    assert_eq!(dto.font_size, 11);
    let back: notaro_core::UserSettings = dto.into();
    assert_eq!(back, core);
}

#[test]
fn note_becomes_a_row_with_rfc3339_text() {
    let note = notaro_core::Note {
        id: "a".into(),
        title: "T".into(),
        content: "C".into(),
        folder: Some("F".into()),
        is_pinned: true,
        created_at: Timestamp::from_parts(1_431_648_000, 0).unwrap(),
        updated_at: Timestamp::from_parts(1_431_648_001, 500_000_000).unwrap(),
        version: 3,
        is_deleted: true,
    };
    let row = Note::from(note);
    assert_eq!(
        row,
        Note {
            id: "a".into(),
            title: "T".into(),
            content: "C".into(),
            folder: Some("F".into()),
            is_pinned: true,
            created_at: "2015-05-15T00:00:00+00:00".into(),
            updated_at: "2015-05-15T00:00:01.500+00:00".into(),
            version: 3,
            is_deleted: true,
        }
    );
}

#[test]
fn row_reads_back_as_the_note_it_came_from() {
    let note = notaro_core::Note {
        id: "a".into(),
        title: "T".into(),
        content: "C".into(),
        folder: None,
        is_pinned: false,
        created_at: Timestamp::from_parts(1_431_648_000, 7).unwrap(),
        updated_at: Timestamp::from_parts(1_431_648_009, 0).unwrap(),
        version: 12,
        is_deleted: false,
    };
    let row = Note::from(note.clone());
    assert_eq!(row.to_core().unwrap(), note);
}

#[test]
fn row_with_a_broken_created_at_is_a_serialization_fault() {
    let mut bad = row("a", "A", "2024-01-02T00:00:00Z", 1);
    bad.created_at = "01/02/2024".into();
    assert!(matches!(bad.to_core(), Err(NotaroError::Timestamp(_))));
}

#[test]
fn row_with_a_broken_updated_at_is_a_serialization_fault() {
    let bad = row("a", "A", "not a time", 1);
    assert!(matches!(bad.to_core(), Err(NotaroError::Timestamp(_))));
}

#[test]
fn rows_are_read_in_order() {
    let rows =
        vec![row("a", "A", "2024-01-02T00:00:00Z", 1), row("b", "B", "2024-01-03T00:00:00Z", 2)];
    let notes = to_notes(&rows).unwrap();
    assert_eq!(notes.len(), 2);
    assert_eq!(notes[0].id, "a");
    assert_eq!(notes[0].updated_at, Timestamp::from_parts(1_704_153_600, 0).unwrap());
    assert_eq!(notes[1].id, "b");
    assert_eq!(notes[1].version, 2);
}

#[test]
fn one_broken_row_fails_the_whole_run() {
    let rows = vec![row("a", "A", "2024-01-02T00:00:00Z", 1), row("b", "B", "garbage", 2)];
    assert!(matches!(to_notes(&rows), Err(NotaroError::Timestamp(_))));
}

#[test]
fn loaded_rows_are_listed_latest_first() {
    let mut handle = ready();
    load_notes(
        &mut handle,
        vec![
            row("a", "A", "2024-01-02T00:00:00Z", 1),
            row("b", "B", "2024-01-03T00:00:00Z", 2),
        ],
    )
    .unwrap();
    let rows = get_all_notes(&handle).unwrap();
    assert_eq!(rows.len(), 2);
    assert_eq!(rows[0].id, "b");
    assert_eq!(rows[0].updated_at, "2024-01-03T00:00:00+00:00");
    assert_eq!(rows[1].id, "a");
}

#[test]
fn load_with_a_broken_row_leaves_the_store_as_it_was() {
    let mut handle = ready();
    load_notes(&mut handle, vec![row("a", "A", "2024-01-02T00:00:00Z", 1)]).unwrap();
    let failed = load_notes(
        &mut handle,
        vec![row("b", "B", "2024-01-03T00:00:00Z", 1), row("c", "C", "garbage", 1)],
    );
    assert!(matches!(failed, Err(ApiError::Store(NotaroError::Timestamp(_)))));
    let rows = get_all_notes(&handle).unwrap();
    assert_eq!(rows.len(), 1);
    assert_eq!(rows[0].id, "a");
}

#[test]
fn load_merges_by_version_like_any_batch() {
    let mut handle = ready();
    load_notes(&mut handle, vec![row("a", "new", "2024-01-02T00:00:00Z", 5)]).unwrap();
    load_notes(&mut handle, vec![row("a", "old", "2024-01-09T00:00:00Z", 4)]).unwrap();
    let rows = get_all_notes(&handle).unwrap();
    assert_eq!(rows.len(), 1);
    assert_eq!(rows[0].title, "new");
}

#[test]
fn create_right_after_init_succeeds() {
    let mut handle = ready();
    let made = create_note(&mut handle, String::new(), String::new(), None).unwrap();
    assert_eq!(made.version, 1);
    assert_eq!(get_all_notes(&handle).unwrap().len(), 1);
}
