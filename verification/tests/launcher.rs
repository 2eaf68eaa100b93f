use gaw_app::launcher::{
    format_bpm, format_sample_rate, is_project_file, is_valid_folder, last_opened_label, may_remove_location,
    project_folder_name, visible_projects, DesktopMode, DraftError, Launcher, NewProjectDraft,
    PendingNews, ProjectEntry, ProjectStatus, ProjectTableWidths, ScanOutcome, TempoInput,
    DAY_MILLIS, DEFAULT_SAMPLE_RATE,
};
use gaw_app::text::{is_blank, trim};

#[test]
fn the_characters_that_are_blank_are_these() {
    let mut blank: Vec<char> = vec!['\t', '\n', '\u{b}', '\u{c}', '\r', ' ', '\u{85}', '\u{a0}'];
    blank.push('\u{1680}');
    blank.extend('\u{2000}'..='\u{200a}');
    blank.extend(['\u{2028}', '\u{2029}', '\u{202f}', '\u{205f}', '\u{3000}']);
    for letter in '\0'..=char::MAX {
        assert_eq!(is_blank(letter), blank.contains(&letter), "{letter:?}");
    }
    assert_eq!(trim("\u{3000} a b\u{2003}\n"), "a b");
}

#[test]
fn project_folder_names_are_portable_and_stable() {
    assert_eq!(project_folder_name("  Night Drive 03  "), "night-drive-03");
    assert_eq!(project_folder_name("Synth___Lab"), "synth___lab");
    assert_eq!(project_folder_name("A/B: Test"), "a-b-test");
}

#[test]
fn sample_rates_keep_fractional_kilohertz() {
    assert_eq!(format_sample_rate(44_100), "44.1 kHz");
    assert_eq!(format_sample_rate(48_000), "48 kHz");
}

#[test]
fn project_tempos_show_a_digit_only_where_there_is_one() {
    assert_eq!(format_bpm(120_000), "120");
    assert_eq!(format_bpm(98_500), "98.5");
    assert_eq!(format_bpm(98_250), "98.2");
    assert_eq!(format_bpm(120_350), "120.3");
    assert_eq!(format_bpm(120_450), "120.5");
}

#[test]
fn new_project_validation_rejects_collisions_and_bad_tempo() {
    let mut draft = NewProjectDraft::new("/projects".to_string());
    draft.name = "Song".into();
    draft.folder = "song".into();
    draft.bpm = "nope".into();
    let error = draft.validate(TempoInput::NotANumber, false).unwrap_err();
    assert_eq!(error.message("/projects/song"), "Tempo must be a number");
    draft.bpm = "120".into();
    let tempo = TempoInput::Valid(120.0f64.to_bits());
    let error = draft.validate(tempo, true).unwrap_err();
    assert!(error.message("/projects/song").contains("already exists"));
}

#[test]
fn a_draft_without_faults_becomes_a_project() {
    let mut draft = NewProjectDraft::new("/projects".to_string());
    draft.name = "  Song  ".into();
    draft.sync_folder();
    assert_eq!(draft.folder, "song");
    let project = draft.validate(TempoInput::Valid(1), false).unwrap();
    assert_eq!(project.folder, "song");
    assert_eq!(project.name, "Song");
    assert_eq!(project.tempo_bits, 1);
    assert_eq!(project.sample_rate, DEFAULT_SAMPLE_RATE);
}

#[test]
fn every_fault_of_a_draft_is_named() {
    let mut draft = NewProjectDraft::new("/projects".to_string());
    draft.name = "   ".into();
    let tempo = TempoInput::Valid(1);
    assert_eq!(draft.validate(tempo, false).unwrap_err(), DraftError::NameMissing);
    draft.name = "Song".into();
    draft.folder = "a/b".into();
    assert_eq!(draft.validate(tempo, false).unwrap_err(), DraftError::FolderInvalid);
    draft.folder = "song".into();
    assert_eq!(
        draft.validate(TempoInput::NotANumber, false).unwrap_err(),
        DraftError::TempoNotANumber
    );
    assert_eq!(
        draft.validate(TempoInput::NotPositive, false).unwrap_err(),
        DraftError::TempoNotPositive
    );
    assert_eq!(draft.validate(tempo, true).unwrap_err(), DraftError::DestinationExists);
}

#[test]
fn a_folder_that_was_typed_is_kept() {
    let mut draft = NewProjectDraft::new("/projects".to_string());
    draft.name = "First".into();
    draft.sync_folder();
    draft.folder = "mine".into();
    draft.name = "Second".into();
    draft.sync_folder();
    assert_eq!(draft.folder, "mine");
}

#[test]
fn suggested_folders_hold_no_separators() {
    let folder = project_folder_name("Übung ÄÖ / 7");
    assert!(is_valid_folder(&folder));
    assert!(is_valid_folder(&project_folder_name("Mix #4 (final)")));
    assert!(!is_valid_folder("tab\there"));
    assert!(!is_valid_folder(".."));
    assert!(!is_valid_folder(""));
    assert!(!is_valid_folder("a\\b"));
}

#[test]
fn last_opened_is_told_in_days() {
    let now = 40 * DAY_MILLIS;
    assert_eq!(last_opened_label(None, now), "Never");
    assert_eq!(last_opened_label(Some(now), now), "Today");
    assert_eq!(last_opened_label(Some(now - DAY_MILLIS), now), "Yesterday");
    assert_eq!(last_opened_label(Some(now - 5 * DAY_MILLIS), now), "5d ago");
}

#[test]
fn searching_ignores_case() {
    let names = vec![
        "night drive /projects/night".to_string(),
        "synth lab /projects/synth".to_string(),
    ];
    assert_eq!(visible_projects(&names, "NIGHT"), vec![0]);
    assert_eq!(visible_projects(&names, " "), vec![0, 1]);
    assert_eq!(visible_projects(&names, "absent"), Vec::<usize>::new());
}

#[test]
fn only_available_projects_open() {
    assert!(ProjectStatus::Available.can_open());
    assert!(!ProjectStatus::Missing.can_open());
    assert!(!ProjectStatus::Invalid("broken".to_string()).can_open());
    assert!(is_project_file("project.json"));
    assert!(!is_project_file("notes.json"));
    assert!(!may_remove_location(1));
    assert!(may_remove_location(2));
}

#[test]
fn a_search_asked_for_while_one_runs_is_not_forgotten() {
    let mut launcher = Launcher::new(None);
    assert!(launcher.start_scan());
    assert!(!launcher.start_scan());
    assert!(!launcher.poll_scan(ScanOutcome::Running));
    let again = launcher.poll_scan(ScanOutcome::Finished {
        paths: vec!["/projects/a".to_string()],
        warnings: vec!["unreadable".to_string()],
    });
    assert!(again);
    assert!(launcher.scanning);
    assert!(!launcher.poll_scan(ScanOutcome::Disconnected));
    assert!(!launcher.scanning);
}

#[test]
fn a_project_that_fails_to_open_returns_to_the_library() {
    let mut launcher = Launcher::new(None);
    launcher.begin_open(Ok(()), Ok(()));
    assert_eq!(launcher.mode, DesktopMode::Opening);
    assert!(launcher.mode.pending_label().is_some());
    assert!(!launcher.poll_pending(PendingNews::Waiting));
    assert!(launcher.poll_pending(PendingNews::Failed("damaged".to_string())));
    assert_eq!(launcher.mode, DesktopMode::Library);
    assert_eq!(launcher.banner(), Some("damaged".to_string()));
    launcher.begin_open(Ok(()), Ok(()));
    launcher.poll_pending(PendingNews::Opened {
        remembered: Err("catalog is read-only".to_string()),
        editor: Ok(()),
    });
    assert_eq!(launcher.notice, Some("catalog is read-only".to_string()));
    assert_eq!(launcher.mode, DesktopMode::Editor);
}

#[test]
fn a_project_that_stops_on_its_way_is_reported() {
    let mut launcher = Launcher::new(None);
    assert!(!launcher.poll_pending(PendingNews::Stopped));
    assert_eq!(launcher.banner(), None);
    launcher.begin_create(Ok(()));
    assert!(launcher.poll_pending(PendingNews::Stopped));
    assert_eq!(launcher.banner().unwrap(), "Project operation stopped unexpectedly");
    launcher.begin_open(Ok(()), Ok(()));
    let news = PendingNews::Opened { remembered: Ok(()), editor: Err("no tracks".to_string()) };
    assert!(!launcher.poll_pending(news));
    assert!(launcher.rescan_requested);
    assert_eq!(launcher.banner().unwrap(), "Could not build the editor: no tracks");
    launcher.begin_create(Err("no threads".to_string()));
    assert_eq!(launcher.banner().unwrap(), "Could not start project creation: no threads");
    assert_eq!(DesktopMode::Creating.failure("/p/a", "full"), "Could not create /p/a: full");
    assert_eq!(DesktopMode::Opening.failure("/p/a", "gone"), "Could not open /p/a: gone");
}

#[test]
fn projects_leave_the_list_without_being_deleted() {
    let mut launcher = Launcher::new(None);
    launcher.select("/p/a".to_string());
    assert!(!launcher.forgotten(Err("catalog is read-only".to_string())));
    assert!(launcher.selected.is_some());
    launcher.error = None;
    assert!(launcher.forgotten(Ok(())));
    assert!(launcher.selected.is_none());
    assert_eq!(
        launcher.banner().unwrap(),
        "Removed from the list. Project files were not deleted."
    );
    assert!(!launcher.location_changed(Ok(())));
    assert!(launcher.rescan_requested);
    assert!(!launcher.location_changed(Err("not a folder".to_string())));
    assert_eq!(launcher.banner().unwrap(), "not a folder");
}

#[test]
fn rows_show_what_is_known_of_a_project() {
    let mut entry = ProjectEntry {
        path: "/p/a".to_string(),
        name: "A".to_string(),
        project_id: Some("01".to_string()),
        tempo: Some(98_500),
        sample_rate: Some(44_100),
        last_opened: Some(0),
        managed: false,
        status: ProjectStatus::Invalid("broken".to_string()),
    };
    let cells = entry.project_row(2 * DAY_MILLIS);
    assert_eq!(cells.tempo, "98.5");
    assert_eq!(cells.rate, "44.1 kHz");
    assert_eq!(cells.last_opened, "2d ago");
    assert_eq!(cells.status, "CAN'T OPEN");
    assert_eq!(
        entry.details(),
        (Some("PROJECT ID  01".to_string()), Some("broken".to_string()))
    );
    assert!(entry.can_be_forgotten());
    entry.tempo = None;
    entry.sample_rate = None;
    let cells = entry.project_row(0);
    assert_eq!((cells.tempo.as_str(), cells.rate.as_str()), ("—", "—"));
}

#[test]
fn columns_share_the_width_of_the_list() {
    let wide = ProjectTableWidths::new(1_108_000);
    assert_eq!((wide.name, wide.location), (250_000, 510_000));
    let usual = ProjectTableWidths::new(848_000);
    assert_eq!((usual.name, usual.location), (180_000, 320_000));
    let narrow = ProjectTableWidths::new(100_000);
    assert_eq!((narrow.name, narrow.location), (150_000, 150_000));
}

#[test]
fn the_form_says_what_is_wrong_with_it() {
    let mut draft = NewProjectDraft::new("/projects".to_string());
    assert!(draft.submit(TempoInput::Valid(120.0f64.to_bits()), false, "/projects/").is_none());
    assert_eq!(draft.error.as_deref(), Some("Enter a project name"));
    draft.name = " Song ".to_string();
    draft.sync_folder();
    assert!(draft.submit(TempoInput::Valid(120.0f64.to_bits()), true, "/projects/song").is_none());
    assert_eq!(draft.error.as_deref(), Some("/projects/song already exists"));
    let project = draft.submit(TempoInput::Valid(120.0f64.to_bits()), false, "").unwrap();
    assert_eq!((project.name.as_str(), project.folder.as_str()), ("Song", "song"));
}
