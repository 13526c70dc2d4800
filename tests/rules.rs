use ink_gateway::config::{Config, ConfigError, ConfigSnapshot};
use ink_gateway::context::{chapter_file_name, load_chapter, load_global_material};
use ink_gateway::init::{
    chapter_count_for, config_with_answers, fill, page_count, section_document, suggested_defaults,
};
use ink_gateway::lock::{classify_lock, lock_age_minutes, read_lock_age, LockState, UtcInstant};
use ink_gateway::progress::{chapter_close_suggested, chapter_progress_pct, completion_ready};
use ink_gateway::state::InkState;

fn config() -> Config {
    Config {
        language: "English".to_string(),
        target_length: 60_000,
        chapter_count: 20,
        chapter_structure: "three acts".to_string(),
        words_per_session: 1_500,
        summary_context_entries: 5,
        session_timeout_minutes: 60,
        words_per_page: 250,
        words_per_chapter: 3_000,
        current_review_window_words: 0,
    }
}

#[test]
fn chapter_close_at_ninety_percent() {
    assert!(chapter_close_suggested(2_700, 3_000));
    assert_eq!(chapter_progress_pct(2_700, 3_000), 90);
    assert!(!chapter_close_suggested(2_699, 3_000));
    assert!(!chapter_close_suggested(2_700, 3_001));
}

#[test]
fn progress_is_clamped_and_guarded() {
    assert_eq!(chapter_progress_pct(10_000, 3_000), 100);
    assert_eq!(chapter_progress_pct(u32::MAX, 1), 100);
    assert_eq!(chapter_progress_pct(5, 0), 0);
    assert_eq!(chapter_progress_pct(0, 3_000), 0);
    assert_eq!(chapter_progress_pct(43_000_000, 50_000_000), 86);
}

#[test]
fn progress_never_falls_as_words_grow() {
    let mut last = 0;
    for count in (0..4_000).step_by(37) {
        let p = chapter_progress_pct(count, 3_000);
        assert!(p >= last);
        assert!(p <= 100);
        last = p;
    }
}

#[test]
fn completion_readiness() {
    assert!(completion_ready(54_000, 60_000));
    assert!(!completion_ready(53_999, 60_000));
}

#[test]
fn lock_boundary_is_inclusive() {
    assert_eq!(classify_lock(None, 60), LockState::Absent);
    assert_eq!(classify_lock(Some(60), 60), LockState::Active);
    assert_eq!(classify_lock(Some(59), 60), LockState::Active);
    assert_eq!(classify_lock(Some(61), 60), LockState::Stale);
    assert_eq!(classify_lock(Some(-5), 60), LockState::Active);
}

#[test]
fn lock_age_in_whole_minutes() {
    let t = UtcInstant { secs: 1_700_000_000, nanos: 500 };
    let later = UtcInstant { secs: 1_700_000_000 + 60 * 60 + 59, nanos: 500 };
    assert_eq!(lock_age_minutes(later, t), 60);
    let just_before = UtcInstant { secs: 1_700_000_000 + 60 * 61, nanos: 499 };
    assert_eq!(lock_age_minutes(just_before, t), 60);
    assert_eq!(lock_age_minutes(t, later), -60);
}

#[test]
fn lock_age_from_file_text() {
    assert_eq!(read_lock_age(None), None);
    assert_eq!(read_lock_age(Some("not a time")), None);
    let old = read_lock_age(Some("  2000-01-01T00:00:00+00:00\n")).unwrap();
    assert!(old > 60 * 24 * 365 * 20);
    let now = chrono::Utc::now().to_rfc3339();
    let age = read_lock_age(Some(&now)).unwrap();
    assert!(age >= 0 && age <= 1);
}

#[test]
fn config_validation_errors() {
    assert_eq!(config().validate(), Ok(()));
    let mut c = config();
    c.target_length = 0;
    assert_eq!(c.validate(), Err(ConfigError::TargetLength(0)));
    let mut c = config();
    c.chapter_count = 0;
    assert_eq!(c.validate(), Err(ConfigError::ChapterCount(0)));
    let mut c = config();
    c.words_per_session = 0;
    assert_eq!(c.validate(), Err(ConfigError::WordsPerSession(0)));
    let mut c = config();
    c.words_per_chapter = 0;
    assert_eq!(c.validate(), Err(ConfigError::WordsPerChapter(0)));
    let mut c = config();
    c.words_per_page = 0;
    assert_eq!(c.validate(), Err(ConfigError::WordsPerPage(0)));
    let mut c = config();
    c.session_timeout_minutes = -1;
    assert_eq!(c.validate(), Err(ConfigError::SessionTimeout(-1)));
    let mut c = config();
    c.summary_context_entries = 0;
    assert_eq!(c.validate(), Err(ConfigError::SummaryContextEntries(0)));
    let mut c = config();
    c.current_review_window_words = 0;
    c.target_length = 0;
    c.words_per_page = 0;
    assert_eq!(c.validate(), Err(ConfigError::TargetLength(0)));
}

#[test]
fn config_snapshot_copies_fields() {
    let s = ConfigSnapshot::new(&config(), 4);
    assert_eq!(s.target_length, 60_000);
    assert_eq!(s.chapter_structure, "three acts");
    assert_eq!(s.current_chapter, 4);
    assert_eq!(s.words_per_chapter, 3_000);
}

#[test]
fn state_defaults_and_validation() {
    let s = InkState::default();
    assert_eq!((s.current_chapter, s.current_chapter_word_count), (1, 0));
    assert!(s.validate().is_ok());
    let bad = InkState { current_chapter: 0, current_chapter_word_count: 3 };
    assert_eq!(bad.validate().unwrap_err().current_chapter, 0);
}

#[test]
fn chapter_names() {
    assert_eq!(chapter_file_name(7), "Chapters material/Chapter_07.md");
    assert_eq!(chapter_file_name(12), "Chapters material/Chapter_12.md");
    assert_eq!(chapter_file_name(100), "Chapters material/Chapter_100.md");
}

#[test]
fn chapter_loading_marks_human_edits() {
    let edits = vec!["Chapters material/Chapter_03.md".to_string(), "Review/current.md".to_string()];
    let c = load_chapter(3, Some("beats".to_string()), &edits).unwrap();
    assert_eq!(c.path, "Chapters material/Chapter_03.md");
    assert_eq!(c.content, "beats");
    assert!(c.modified_today);
    let c = load_chapter(4, Some("more".to_string()), &edits).unwrap();
    assert!(!c.modified_today);
    assert!(load_chapter(5, None, &edits).is_none());
}

#[test]
fn reference_material_selection() {
    let files = vec![
        ("Soul.md".to_string(), "voice".to_string()),
        ("Config.yml".to_string(), "target_length: 1".to_string()),
        ("Summary.md".to_string(), "one\n\ntwo\n\nthree".to_string()),
        ("Characters.md".to_string(), "cast".to_string()),
        ("Lore.md".to_string(), "world".to_string()),
    ];
    let r = load_global_material(&files, 2);
    let names: Vec<&str> = r.iter().map(|f| f.filename.as_str()).collect();
    assert_eq!(names, vec!["Characters.md", "Lore.md", "Soul.md", "Summary.md"]);
    assert_eq!(r[3].content, "two\n\nthree");
    assert_eq!(r[0].content, "cast");
}

#[test]
fn template_placeholders() {
    assert_eq!(fill("# {{TITLE}}\nby {{AUTHOR}} ({{TITLE}})", "Dune", "Frank"), "# Dune\nby Frank (Dune)");
    assert_eq!(fill("{{TITLE", "x", "y"), "{{TITLE");
    assert_eq!(fill("{{TITLE}}", "{{AUTHOR}}", "z"), "z");
}

#[test]
fn book_type_defaults() {
    assert_eq!(suggested_defaults("Flash fiction"), (5, 2));
    assert_eq!(suggested_defaults("Short story"), (20, 3));
    assert_eq!(suggested_defaults("Novel"), (250, 6));
    assert_eq!(suggested_defaults("Epic"), (250, 6));
}

#[test]
fn page_answers() {
    assert_eq!(page_count(" 250 "), 250);
    assert_eq!(page_count("+7"), 7);
    assert_eq!(page_count("4294967295"), u32::MAX);
    assert_eq!(page_count("4294967296"), 0);
    assert_eq!(page_count("12 pages"), 0);
    assert_eq!(page_count(""), 0);
    assert_eq!(page_count("+"), 0);
    assert_eq!(page_count("-3"), 0);
}

#[test]
fn chapter_count_rounds_up() {
    assert_eq!(chapter_count_for(0), 1);
    assert_eq!(chapter_count_for(3_000), 1);
    assert_eq!(chapter_count_for(3_001), 2);
    assert_eq!(chapter_count_for(62_500), 21);
}

#[test]
fn config_answers_rewrite_keys() {
    let content = "# Book\nlanguage: English\ntarget_length: 60000\r\nchapter_count: 20\nwords_per_session: 1500\nother: 1";
    assert_eq!(
        config_with_answers(content, " French ", 250, 6),
        "# Book\nlanguage: French\ntarget_length: 62500\nchapter_count: 21\nwords_per_session: 1500\nother: 1\n"
    );
    assert_eq!(
        config_with_answers("language: English\n", "", 0, 0),
        "language: English\n"
    );
    assert_eq!(config_with_answers("", "x", 1, 1), "\n");
}

#[test]
fn answer_sections() {
    let s = vec![("Genre & Tone".to_string(), " Dark ".to_string()), ("Narrator".to_string(), "  ".to_string())];
    assert_eq!(section_document("Soul", &s), Some("# Soul\n\n## Genre & Tone\n\nDark\n".to_string()));
    let empty = vec![("A".to_string(), String::new())];
    assert_eq!(section_document("Lore", &empty), None);
}
