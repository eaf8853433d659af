use base64::Engine;
use dsa_learning::audio::session::Timestamp;
use dsa_learning::commands::audio::{
    audio_data_url, card_recording_filename, deleted_recording_message, elapsed_recording_time,
    get_recording_state, pause_recording,
    resume_recording, start_recording, stop_recording, switch_audio_device,
};
use dsa_learning::commands::database::{
    connected_message, create_request, finish_import, new_import_result, parse_json_array, push_unique_tag,
    record_creation, record_duplicate_check, refused_import, search_kind, strings_or_fallback, DuplicateCheck,
    SearchKind,
};
use dsa_learning::commands::images::{
    asset_url, decode_image_data, detect_image_format, image_data_url, image_file_name, image_location,
    image_payload, mime_type_for, problem_image_path,
};
use dsa_learning::commands::solution_card::{
    create_solution_card, get_solution_card, toggle_after_create, toggle_solution_view, update_response,
    ToggleStep,
};
use dsa_learning::commands::timer::{
    get_review_timer_state, get_timer_state, pause_timer_session, resume_timer_session, start_timer_session,
    stop_timer_session,
};
use dsa_learning::models::{AudioCommand, ParsedProblem, RecordingSession, SolutionCard, Tag, TimerSession};
use dsa_learning::path_resolver::PathResolver;

use dsa_learning::commands::database::{add_relation, remove_relation};
use dsa_learning::commands::database::{query_placeholders, search_pattern};
use dsa_learning::commands::database::get_topic_suggestions;
use dsa_learning::commands::database::recording_location;
use dsa_learning::commands::debug::{debug_audio_loading, debug_paths, debug_recording_paths, naive_location};
use dsa_learning::audio::devices::{check_microphone_permission, DefaultDevice};
use dsa_learning::audio::recorder::AudioRecorder;
use dsa_learning::audio::state::{probe_is_paused, probe_is_recording, RecordingState};
use dsa_learning::audio::stream::{ContainerSpec, NegotiatedConfig, SampleEncoding, SampleFormat};

fn stamp(secs: i64) -> Timestamp {
    Timestamp::new(secs, 0).unwrap()
}

fn resolver() -> PathResolver {
    PathResolver::with_base("/data/app".to_string(), false)
}

fn card() -> SolutionCard {
    SolutionCard {
        id: "c1".to_string(),
        problem_id: "prob-a".to_string(),
        card_number: 1,
        code: String::new(),
        language: "rust".to_string(),
        notes: String::new(),
        status: "In Progress".to_string(),
        total_duration: 0,
        created_at: "2024-01-01".to_string(),
        last_modified: "2024-01-01".to_string(),
        is_solution: true,
    }
}

fn tag(id: &str, name: &str) -> Tag {
    Tag { id: id.to_string(), name: name.to_string(), color: None, category: "custom".to_string() }
}

#[test]
fn recording_file_names_carry_the_card() {
    assert_eq!(
        card_recording_filename("0123456789abcdef", "20240102_030405"),
        "recording_01234567_20240102_030405.wav"
    );
    assert_eq!(card_recording_filename("abc", "t"), "recording_abc_t.wav");
    assert_eq!(card_recording_filename("", "t"), "recording__t.wav");
    assert_eq!(card_recording_filename("12345678", "t"), "recording_12345678_t.wav");
    assert_eq!(card_recording_filename("\u{e9}\u{e9}\u{e9}\u{e9}\u{e9}", "t"), "recording_\u{e9}\u{e9}\u{e9}\u{e9}_t.wav");
    assert_eq!(card_recording_filename("abcdefg\u{e9}z", "t"), "recording_abcdefg_t.wav");
    for id in ["0123456789", "short", "\u{e9}\u{e9}\u{e9}\u{e9}x", "abcdef\u{e9}z"] {
        let expected = format!("recording_{}_{}.wav", &id[..8.min(id.len())], "ts");
        assert_eq!(card_recording_filename(id, "ts"), expected);
    }
}

#[test]
fn starting_a_recording() {
    let mut slot: Option<RecordingSession> = None;
    let started = start_recording(
        &mut slot,
        &resolver(),
        "card-1234-5678".to_string(),
        "session-1".to_string(),
        stamp(1000),
        "20240102_030405",
    );
    match started.command {
        AudioCommand::StartRecording { filepath, sample_rate, channels } => {
            assert_eq!(filepath, "/data/app/recordings/recording_card-123_20240102_030405.wav");
            assert_eq!(sample_rate, 44100);
            assert_eq!(channels, 1);
        }
        other => panic!("expected StartRecording, got {:?}", other),
    }
    assert_eq!(started.info.filename, "recording_card-123_20240102_030405.wav");
    assert_eq!(started.info.filepath, "app-data/recordings/recording_card-123_20240102_030405.wav");
    let session = slot.unwrap();
    assert_eq!(session.id, "session-1");
    assert_eq!(session.card_id, "card-1234-5678");
    assert_eq!(session.start_time, stamp(1000));
    assert!(!session.is_paused);
    assert_eq!(session.filename, "recording_card-123_20240102_030405.wav");
    assert_eq!(session.filepath, "/data/app/recordings/recording_card-123_20240102_030405.wav");
}

#[test]
fn pausing_and_stopping_a_recording() {
    let mut slot: Option<RecordingSession> = None;
    assert_eq!(pause_recording(&mut slot, &stamp(5)).err(), Some("No active recording".to_string()));
    assert_eq!(resume_recording(&mut slot, &stamp(5)).err(), Some("No active recording".to_string()));
    assert_eq!(stop_recording(&mut slot, &resolver(), &stamp(5)).err(), Some("No active recording".to_string()));
    let idle = get_recording_state(&slot, &stamp(5));
    assert!(!idle.is_recording && !idle.is_paused);
    assert!(idle.current_recording_id.is_none() && idle.recording_start_time.is_none());
    assert_eq!(idle.elapsed_recording_time, 0);

    start_recording(&mut slot, &resolver(), "card".to_string(), "s1".to_string(), stamp(1000), "ts");
    let paused = pause_recording(&mut slot, &stamp(1030)).unwrap();
    assert_eq!(paused.message, "Recording paused");
    assert!(matches!(paused.command, AudioCommand::PauseRecording));
    assert!(slot.as_ref().unwrap().is_paused);
    let state = get_recording_state(&slot, &stamp(1075));
    assert!(state.is_recording && state.is_paused);
    assert_eq!(state.current_recording_id, Some("s1".to_string()));
    assert_eq!(state.recording_start_time, Some(stamp(1000)));
    assert_eq!(state.elapsed_recording_time, 30);
    let resumed = resume_recording(&mut slot, &stamp(1080)).unwrap();
    assert_eq!(resumed.message, "Recording resumed");
    assert!(matches!(resumed.command, AudioCommand::ResumeRecording));
    assert!(!slot.as_ref().unwrap().is_paused);
    let stopped = stop_recording(&mut slot, &resolver(), &stamp(1090)).unwrap();
    assert!(matches!(stopped.command, AudioCommand::StopRecording));
    assert_eq!(stopped.card_id, "card");
    assert_eq!(stopped.filename, "recording_card_ts.wav");
    assert_eq!(stopped.relative_path, "app-data/recordings/recording_card_ts.wav");
    assert_eq!(stopped.duration, 90);
    assert!(slot.is_none());
}

#[test]
fn elapsed_time_of_a_recording_leaves_out_the_pauses() {
    let mut slot: Option<RecordingSession> = None;
    start_recording(&mut slot, &resolver(), "card".to_string(), "s1".to_string(), stamp(0), "ts");
    assert_eq!(slot.as_ref().unwrap().pause_duration, 0);
    assert_eq!(get_recording_state(&slot, &stamp(0)).elapsed_recording_time, 0);
    assert_eq!(get_recording_state(&slot, &stamp(7)).elapsed_recording_time, 7);
    assert_eq!(elapsed_recording_time(slot.as_ref().unwrap(), &stamp(7)), 7);

    pause_recording(&mut slot, &stamp(10)).unwrap();
    assert_eq!(get_recording_state(&slot, &stamp(10)).elapsed_recording_time, 10);
    assert_eq!(get_recording_state(&slot, &stamp(20)).elapsed_recording_time, 10);
    assert_eq!(get_recording_state(&slot, &stamp(2000)).elapsed_recording_time, 10);
    pause_recording(&mut slot, &stamp(15)).unwrap();
    assert_eq!(get_recording_state(&slot, &stamp(20)).elapsed_recording_time, 10);

    resume_recording(&mut slot, &stamp(25)).unwrap();
    assert_eq!(slot.as_ref().unwrap().pause_duration, 15);
    assert_eq!(get_recording_state(&slot, &stamp(25)).elapsed_recording_time, 10);
    assert_eq!(get_recording_state(&slot, &stamp(31)).elapsed_recording_time, 16);
    resume_recording(&mut slot, &stamp(40)).unwrap();
    assert_eq!(slot.as_ref().unwrap().pause_duration, 15);
    assert_eq!(get_recording_state(&slot, &stamp(41)).elapsed_recording_time, 26);

    pause_recording(&mut slot, &stamp(45)).unwrap();
    resume_recording(&mut slot, &stamp(50)).unwrap();
    assert_eq!(slot.as_ref().unwrap().pause_duration, 20);
    let state = get_recording_state(&slot, &stamp(60));
    assert!(state.is_recording && !state.is_paused);
    assert_eq!(state.elapsed_recording_time, 40);
}

#[test]
fn audio_data_urls() {
    assert_eq!(audio_data_url(b""), "data:audio/wav;base64,");
    assert_eq!(audio_data_url(b"RIFF"), "data:audio/wav;base64,UklGRg==");
    let bytes: Vec<u8> = (0..=255).collect();
    let expected = format!("data:audio/wav;base64,{}", base64::engine::general_purpose::STANDARD.encode(&bytes));
    assert_eq!(audio_data_url(&bytes), expected);
    assert_ne!(audio_data_url(b"RIFF"), "data:audio/wav;base64,RIFF");
}

#[test]
fn recording_messages() {
    assert_eq!(deleted_recording_message(true), "Recording deleted successfully from database and file system");
    assert_eq!(
        deleted_recording_message(false),
        "Recording deleted from database (file was already missing or inaccessible)"
    );
    let (command, message) = switch_audio_device("USB Mic");
    assert!(matches!(command, AudioCommand::SwitchDevice { device_name } if device_name == "USB Mic"));
    assert_eq!(message, "Switched to device: USB Mic");
}

#[test]
fn timer_bookkeeping() {
    let mut slot: Option<TimerSession> = None;
    assert_eq!(pause_timer_session(&mut slot), Err("No active timer session".to_string()));
    assert_eq!(resume_timer_session(&mut slot), Err("No active timer session".to_string()));
    assert_eq!(stop_timer_session(&mut slot).err(), Some("No active timer session".to_string()));
    let idle = get_timer_state(&slot, &stamp(0));
    assert!(!idle.is_running && !idle.is_paused && idle.elapsed_time == 0);

    let (session, state) = start_timer_session("t1".to_string(), "card".to_string(), stamp(100));
    assert!(state.is_running && !state.is_paused);
    assert_eq!(state.current_session_id, Some("t1".to_string()));
    assert_eq!(state.session_start_time, Some(stamp(100)));
    assert_eq!(state.elapsed_time, 0);
    slot = Some(session);
    assert_eq!(get_timer_state(&slot, &stamp(160)).elapsed_time, 60);
    slot.as_mut().unwrap().pause_duration = 25;
    assert_eq!(get_timer_state(&slot, &stamp(160)).elapsed_time, 35);
    assert_eq!(pause_timer_session(&mut slot), Ok("Timer session paused".to_string()));
    let paused = get_timer_state(&slot, &stamp(500));
    assert!(paused.is_paused);
    assert_eq!(paused.elapsed_time, 25);
    assert_eq!(resume_timer_session(&mut slot), Ok("Timer session resumed".to_string()));
    slot.as_mut().unwrap().pause_duration = 1000;
    assert_eq!(get_timer_state(&slot, &stamp(160)).elapsed_time, -940);
    assert_eq!(get_review_timer_state(&slot, &stamp(160)).elapsed_time, 0);
    let taken = stop_timer_session(&mut slot).unwrap();
    assert_eq!(taken.id, "t1");
    assert!(slot.is_none());
}

#[test]
fn solution_card_answers() {
    let r = get_solution_card(Ok(Some(card())));
    assert!(r.success && r.error.is_none());
    assert_eq!(r.card.unwrap().id, "c1");
    let r = get_solution_card(Ok(None));
    assert!(r.success && r.card.is_none() && r.error.is_none());
    let r = get_solution_card(Err("locked".to_string()));
    assert!(!r.success && r.card.is_none());
    assert_eq!(r.error, Some("Failed to get solution card: locked".to_string()));
    let r = create_solution_card(Ok(card()));
    assert!(r.success && r.card.is_some());
    let r = create_solution_card(Err("full".to_string()));
    assert_eq!(r.error, Some("Failed to create solution card: full".to_string()));
    let r = update_response(Ok(()), "update solution card code");
    assert!(r.success && r.error.is_none());
    let r = update_response(Err("gone".to_string()), "update solution card notes");
    assert!(!r.success);
    assert_eq!(r.error, Some("Failed to update solution card notes: gone".to_string()));
}

#[test]
fn toggling_the_solution_view() {
    match toggle_solution_view(Ok(Some(card())), false) {
        ToggleStep::Respond(r) => assert!(r.success && r.is_viewing_solution && r.card.is_some()),
        ToggleStep::Create => panic!("nothing to create"),
    }
    assert!(matches!(toggle_solution_view(Ok(None), true), ToggleStep::Create));
    match toggle_solution_view(Ok(None), false) {
        ToggleStep::Respond(r) => assert!(r.success && !r.is_viewing_solution && r.card.is_none() && r.error.is_none()),
        ToggleStep::Create => panic!("not asked to create"),
    }
    match toggle_solution_view(Err("locked".to_string()), true) {
        ToggleStep::Respond(r) => {
            assert!(!r.success && !r.is_viewing_solution);
            assert_eq!(r.error, Some("Failed to check for solution card: locked".to_string()));
        }
        ToggleStep::Create => panic!("a failure creates nothing"),
    }
    let r = toggle_after_create(Ok(card()));
    assert!(r.success && r.is_viewing_solution && r.card.is_some());
    let r = toggle_after_create(Err("full".to_string()));
    assert!(!r.success && !r.is_viewing_solution);
    assert_eq!(r.error, Some("Failed to create solution card: full".to_string()));
}

#[test]
fn image_formats() {
    assert_eq!(detect_image_format("data:image/png;base64,AAAA"), Some("png"));
    assert_eq!(detect_image_format("data:image/jpeg;base64,AAAA"), Some("jpg"));
    assert_eq!(detect_image_format("data:image/jpg;base64,AAAA"), Some("jpg"));
    assert_eq!(detect_image_format("data:image/gif;base64,AAAA"), Some("gif"));
    assert_eq!(detect_image_format("data:image/webp;base64,AAAA"), Some("webp"));
    assert_eq!(detect_image_format("data:image/svg+xml;base64,AAAA"), Some("svg"));
    assert_eq!(detect_image_format("data:image/bmp;base64,AAAA"), Some("png"));
    assert_eq!(detect_image_format("AAAA"), Some("png"));
    assert_eq!(detect_image_format(""), Some("png"));
}

#[test]
fn image_payloads() {
    assert_eq!(image_payload("data:image/png;base64,AAAA"), "AAAA");
    assert_eq!(image_payload("AAAA"), "AAAA");
    assert_eq!(image_payload("a,b,c"), "b");
    assert_eq!(image_payload("a,"), "");
    assert_eq!(image_payload(",x"), "x");
    assert_eq!(image_payload(""), "");
    assert_eq!(decode_image_data("data:image/png;base64,UklGRg=="), Ok(b"RIFF".to_vec()));
    assert_eq!(decode_image_data("UklGRg=="), Ok(b"RIFF".to_vec()));
    assert_eq!(decode_image_data(""), Ok(Vec::new()));
    let refused = decode_image_data("data:image/png;base64,@@@").unwrap_err();
    assert!(refused.starts_with("Failed to decode base64 image: "));
    assert!(refused.len() > "Failed to decode base64 image: ".len());
    assert!(decode_image_data("UklGRg").is_err());
}

#[test]
fn image_names_and_places() {
    assert_eq!(image_file_name("1234-abcd", "png"), "1234-abcd.png");
    assert_eq!(problem_image_path(true, "prob-a", "x.png"), "dev-data/images/problem_prob-a/x.png");
    assert_eq!(problem_image_path(false, "prob-a", "x.png"), "app-data/images/problem_prob-a/x.png");
    assert_eq!(image_location("dev-data/images/a.png", "/work", "/data"), "/work/dev-data/images/a.png");
    assert_eq!(image_location("app-data/images/a.png", "/work", "/data"), "/data/images/a.png");
    assert_eq!(image_location("images/a.png", "/work", "/data"), "/work/attachments/images/a.png");
    assert_eq!(image_location("other/a.png", "/work", "/data"), "/work/other/a.png");
    assert_eq!(asset_url("/data/images/a.png"), "asset://localhost/data/images/a.png");
}

#[test]
fn media_types() {
    assert_eq!(mime_type_for(Some("png")), "image/png");
    assert_eq!(mime_type_for(Some("jpg")), "image/jpeg");
    assert_eq!(mime_type_for(Some("jpeg")), "image/jpeg");
    assert_eq!(mime_type_for(Some("gif")), "image/gif");
    assert_eq!(mime_type_for(Some("webp")), "image/webp");
    assert_eq!(mime_type_for(Some("svg")), "image/svg+xml");
    assert_eq!(mime_type_for(Some("PNG")), "image/png");
    assert_eq!(mime_type_for(Some("bmp")), "image/png");
    assert_eq!(mime_type_for(None), "image/png");
    assert_eq!(image_data_url("image/gif", b"GIF89a"), "data:image/gif;base64,R0lGODlh");
    assert_eq!(dsa_learning::commands::images::data_url("text/plain", "QQ=="), "data:text/plain;base64,QQ==");
}

#[test]
fn stored_lists() {
    let none: Vec<String> = Vec::new();
    assert_eq!(parse_json_array(""), none);
    assert_eq!(parse_json_array("null"), none);
    assert_eq!(parse_json_array("[]"), none);
    assert_eq!(parse_json_array("[\"a\", \"b,c\"]"), vec!["a".to_string(), "b,c".to_string()]);
    assert_eq!(parse_json_array("[1, 2]"), none);
    assert_eq!(parse_json_array("[\"a\""), vec!["[\"a\"".to_string()]);
    assert_eq!(parse_json_array("a, b ,, c"), vec!["a".to_string(), "b".to_string(), "c".to_string()]);
    assert_eq!(parse_json_array("\"text\""), vec!["\"text\"".to_string()]);
    assert_eq!(parse_json_array(" null"), vec!["null".to_string()]);
    assert_eq!(strings_or_fallback("x, y", None), vec!["x".to_string(), "y".to_string()]);
    assert_eq!(strings_or_fallback("null", Some(vec!["z".to_string()])), none);
    assert_eq!(strings_or_fallback("[x]", None), none);
    assert_eq!(strings_or_fallback("[x]", Some(vec!["x".to_string()])), vec!["x".to_string()]);
}

#[test]
fn unique_tags() {
    let mut added = Vec::new();
    push_unique_tag(&mut added, tag("1", "arrays"));
    push_unique_tag(&mut added, tag("2", "graphs"));
    push_unique_tag(&mut added, tag("1", "other name"));
    let ids: Vec<(String, String)> = added.iter().map(|t| (t.id.clone(), t.name.clone())).collect();
    assert_eq!(ids, vec![("1".to_string(), "arrays".to_string()), ("2".to_string(), "graphs".to_string())]);
}

#[test]
fn search_kinds() {
    assert_eq!(search_kind("name"), Ok(SearchKind::Name));
    assert_eq!(search_kind("topic"), Ok(SearchKind::Topic));
    assert_eq!(search_kind("tags"), Ok(SearchKind::Tags));
    assert_eq!(search_kind("Name"), Err("Invalid search type".to_string()));
    assert_eq!(search_kind(""), Err("Invalid search type".to_string()));
}

#[test]
fn store_messages() {
    assert_eq!(connected_message(0), "Connected to database successfully. Found 0 problems.");
    assert_eq!(connected_message(42), "Connected to database successfully. Found 42 problems.");
}

#[test]
fn import_accounting() {
    let mut result = new_import_result();
    assert!(result.success);
    assert_eq!((result.imported_count, result.skipped_count, result.error_count), (0, 0, 0));
    assert!(record_duplicate_check(&mut result, 1, "A", DuplicateCheck::Missing));
    record_creation(&mut result, 1, Ok(()));
    assert!(!record_duplicate_check(&mut result, 2, "B", DuplicateCheck::Exists));
    assert!(!record_duplicate_check(&mut result, 3, "C", DuplicateCheck::Failed("locked".to_string())));
    assert!(record_duplicate_check(&mut result, 4, "D", DuplicateCheck::Missing));
    record_creation(&mut result, 4, Err("full".to_string()));
    finish_import(&mut result);
    assert!(!result.success);
    assert_eq!((result.imported_count, result.skipped_count, result.error_count), (1, 1, 2));
    assert_eq!(result.duplicates, vec!["B".to_string()]);
    assert_eq!(result.errors.len(), 2);
    assert_eq!(result.errors[0].line, 3);
    assert_eq!(result.errors[0].field, Some("title".to_string()));
    assert_eq!(result.errors[0].message, "Failed to check for duplicate: locked");
    assert_eq!(result.errors[0].severity, "error");
    assert_eq!(result.errors[1].line, 4);
    assert_eq!(result.errors[1].field, None);
    assert_eq!(result.errors[1].message, "Failed to create problem: full");

    let mut clean = new_import_result();
    record_creation(&mut clean, 1, Ok(()));
    finish_import(&mut clean);
    assert!(clean.success);

    let refused = refused_import("Title cannot be empty");
    assert!(!refused.success);
    assert_eq!(refused.errors.len(), 1);
    assert_eq!(refused.errors[0].line, 0);
    assert_eq!(refused.errors[0].message, "Failed to parse TXT content: Title cannot be empty");
    assert_eq!(refused.imported_count, 0);
}

#[test]
fn create_requests_copy_the_problem() {
    let mut p = ParsedProblem::new();
    p.title = "T".to_string();
    p.description = "D".to_string();
    p.difficulty = "Easy".to_string();
    p.topics = vec!["a".to_string(), "b".to_string()];
    p.leetcode_url = Some("u".to_string());
    p.constraints = vec!["c".to_string()];
    p.hints = vec!["h".to_string()];
    let request = create_request(&p);
    assert_eq!(request.title, "T");
    assert_eq!(request.description, "D");
    assert_eq!(request.difficulty, "Easy");
    assert_eq!(request.topic, p.topics);
    assert_eq!(request.leetcode_url, p.leetcode_url);
    assert_eq!(request.constraints, p.constraints);
    assert_eq!(request.hints, p.hints);
    assert!(request.related_problem_ids.is_none());
}

#[test]
fn relations() {
    let related = vec!["a".to_string(), "b".to_string()];
    assert_eq!(add_relation(related.clone(), "c"), Some(vec!["a".to_string(), "b".to_string(), "c".to_string()]));
    assert_eq!(add_relation(related.clone(), "a"), None);
    assert_eq!(add_relation(Vec::new(), "a"), Some(vec!["a".to_string()]));
    let doubled = vec!["a".to_string(), "b".to_string(), "a".to_string(), "c".to_string()];
    assert_eq!(remove_relation(&doubled, "a"), vec!["b".to_string(), "c".to_string()]);
    assert_eq!(remove_relation(&doubled, "z"), doubled);
    assert_eq!(remove_relation(&Vec::new(), "z"), Vec::<String>::new());
}

#[test]
fn query_texts() {
    assert_eq!(query_placeholders(0), "");
    assert_eq!(query_placeholders(1), "?");
    assert_eq!(query_placeholders(3), "?, ?, ?");
    assert_eq!(search_pattern("Two SUM"), "%two sum%");
    assert_eq!(search_pattern(""), "%%");
    assert_eq!(search_pattern("\u{c9}T\u{c9}"), "%\u{e9}t\u{e9}%");
}

#[test]
fn topic_suggestions() {
    let stored = vec![
        "[\"Arrays\", \"Hash Table\"]".to_string(),
        "[\"arrays\", \"Two Pointers\", \"Arrays\"]".to_string(),
        "graphs, array lists".to_string(),
        "[]".to_string(),
    ];
    assert_eq!(
        get_topic_suggestions(&stored, "ARRAY"),
        vec!["Arrays".to_string(), "arrays".to_string(), "array lists".to_string()]
    );
    assert_eq!(get_topic_suggestions(&stored, "zzz"), Vec::<String>::new());
    assert_eq!(get_topic_suggestions(&stored, "").len(), 6);
    let many: Vec<String> = (0..30).map(|i| format!("[\"topic {}\", \"other {}\"]", i, i)).collect();
    let found = get_topic_suggestions(&many, "Topic");
    assert_eq!(found.len(), 10);
    assert_eq!(found[0], "topic 0");
    assert_eq!(found[9], "topic 9");
}

#[test]
fn recording_locations() {
    assert_eq!(recording_location("dev-data/recordings/a.wav", "/work", "/data", true), "/work/dev-data/recordings/a.wav");
    assert_eq!(recording_location("app-data/recordings/a.wav", "/work", "/data", true), "/work/dev-data/recordings/a.wav");
    assert_eq!(recording_location("app-data/recordings/a.wav", "/work", "/data", false), "/data/recordings/a.wav");
    assert_eq!(recording_location("attachments/a.wav", "/work", "/data", false), "/work/attachments/a.wav");
    assert_eq!(recording_location("/abs/a.wav", "/work", "/data", false), "/abs/a.wav");
    assert_eq!(recording_location("rel/a.wav", "/work", "/data", false), "rel/a.wav");
}

#[test]
fn debug_reports() {
    let info = debug_paths(&resolver(), true);
    assert!(info.is_debug_mode && info.cfg_debug_assertions);
    assert_eq!(info.path_resolver_base_dir, "/data/app");
    assert_eq!(info.recordings_dir, "/data/app/recordings");
    assert_eq!(info.images_dir, "/data/app/images");
    assert_eq!(info.sample_resolved_path, "/data/app/recordings/test.wav");
    assert_eq!(
        debug_recording_paths("app-data/a.wav", "/data/app/a.wav", false),
        format!("Relative: {} \u{2192} Resolved: {} (exists: {})", "app-data/a.wav", "/data/app/a.wav", false)
    );
    assert_eq!(naive_location("/work", "app-data/a.wav"), "/work/app-data/a.wav");
    let expected = format!(
        "\u{1f50d} Audio Loading Debug:\n\n\
        1. Current Working Dir: {}\n\
        2. Relative Path: {}\n\
        3. Frontend Wrong Path: {} (exists: {})\n\
        4. PathResolver Correct Path: {} (exists: {})\n\n\
        \u{274c} Problem: Frontend uses current_dir + relative_path\n\
        \u{2705} Solution: Frontend should get absolute path from Rust",
        "/work", "app-data/a.wav", "/work/app-data/a.wav", false, "/data/app/a.wav", true
    );
    assert_eq!(
        debug_audio_loading("/work", "app-data/a.wav", "/work/app-data/a.wav", false, "/data/app/a.wav", true),
        expected
    );
}

#[test]
fn microphone_reports() {
    assert_eq!(
        check_microphone_permission(&DefaultDevice::Named("Mic".to_string()), ""),
        "\u{2705} Microphone permission granted. Device: Mic"
    );
    assert_eq!(
        check_microphone_permission(&DefaultDevice::Unnamed, "denied"),
        "\u{274c} Microphone permission denied or device error: denied"
    );
    assert_eq!(check_microphone_permission(&DefaultDevice::Missing, "x"), "\u{274c} No microphone device available");
}

#[test]
fn recording_handles() {
    let recorder = AudioRecorder::new();
    let negotiated = NegotiatedConfig { sample_rate: 16000, channels: 4, format: SampleFormat::I16 };
    assert_eq!(
        recorder.container(&negotiated),
        ContainerSpec { channels: 1, sample_rate: 16000, bits_per_sample: 16, sample_format: SampleEncoding::Int }
    );
    let mut handle = recorder.start_recording("/tmp/x.wav".to_string(), stamp(100));
    assert!(handle.is_recording() && !handle.is_paused());
    handle.pause();
    assert!(handle.is_paused() && !handle.is_recording());
    assert_eq!(handle.current_state(), RecordingState::Paused);
    handle.resume();
    assert!(handle.is_recording());
    assert_eq!(handle.get_elapsed_time(&stamp(163)), 63);
    handle.mark_stopped();
    assert!(!handle.is_recording() && !handle.is_paused());
    assert_eq!(handle.stop(), "/tmp/x.wav");
    assert!(probe_is_paused(Some(RecordingState::Paused)));
    assert!(!probe_is_paused(None));
    assert!(!probe_is_paused(Some(RecordingState::Recording)));
    assert!(probe_is_recording(Some(RecordingState::Recording)));
    assert!(!probe_is_recording(None));
    assert!(!probe_is_recording(Some(RecordingState::Stopped)));
}
