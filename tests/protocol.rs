use ink_gateway::config::Config;
use ink_gateway::git::{
    collect_diffs_vs_remote, collect_modified_files, commit_human_edits, merge_human_edits,
    setup_draft_branch, CommitMessage, GitCommand, GitOutcome, GitStep,
};
use ink_gateway::maintenance::{
    close_files, CloseAction, CloseError, CloseEvent, CompleteAction, CompleteError, CompleteEvent,
    Completion, SessionClose,
};
use ink_gateway::session::{
    snapshot_tag_name, ContextFiles, OpenAction, OpenError, OpenEvent, SessionOpen, SessionPayload,
};
use ink_gateway::state::InkState;

fn ok() -> OpenEvent {
    OpenEvent::Git(Ok(String::new()))
}

fn config() -> Config {
    Config {
        language: "English".to_string(),
        target_length: 10,
        chapter_count: 3,
        chapter_structure: "acts".to_string(),
        words_per_session: 500,
        summary_context_entries: 5,
        session_timeout_minutes: 60,
        words_per_page: 250,
        words_per_chapter: 3_000,
        current_review_window_words: 0,
    }
}

fn git_cmd(a: &OpenAction) -> Vec<String> {
    match a {
        OpenAction::Git(c) => c.args(),
        _ => panic!("expected a git command"),
    }
}

fn args(v: &[&str]) -> Vec<String> {
    v.iter().map(|s| s.to_string()).collect()
}

/// Drives the open machine through sync with no kill request and the
/// given status and diff outputs; returns the machine at the lock read.
fn open_until_lock(status: &str, diff: GitOutcome, chapter_words: u32) -> (SessionOpen, Vec<Vec<String>>) {
    let mut seen = Vec::new();
    let (mut s, a) = SessionOpen::start();
    seen.push(git_cmd(&a));
    let a = s.step(ok());
    seen.push(git_cmd(&a));
    let a = s.step(ok());
    assert!(matches!(a, OpenAction::CheckKillFile));
    let a = s.step(OpenEvent::KillFile(false));
    assert!(matches!(a, OpenAction::LoadSettings));
    let st = InkState { current_chapter: 2, current_chapter_word_count: chapter_words };
    let a = s.step(OpenEvent::Settings(config(), st));
    seen.push(git_cmd(&a));
    let a = s.step(OpenEvent::Git(Ok(status.to_string())));
    seen.push(git_cmd(&a));
    let mut a = s.step(OpenEvent::Git(diff));
    loop {
        let c = git_cmd(&a);
        seen.push(c.clone());
        let outcome = if c == args(&["diff", "--cached", "--quiet"]) {
            Err("staged".to_string())
        } else {
            Ok(String::new())
        };
        a = s.step(OpenEvent::Git(outcome));
        if matches!(a, OpenAction::ReadLockFile) {
            break;
        }
    }
    (s, seen)
}

fn finish_admitted(mut s: SessionOpen, a: OpenAction, ctx: ContextFiles) -> (SessionPayload, Vec<Vec<String>>) {
    let mut seen = Vec::new();
    let a = match a {
        OpenAction::WriteLockFile(text) => {
            assert!(ink_gateway::lock::read_lock_age(Some(&text)).is_some());
            s.step(OpenEvent::FileDone(Ok(())))
        }
        _ => panic!("expected the lock to be written"),
    };
    let mut a = a;
    loop {
        match &a {
            OpenAction::Git(c) => {
                seen.push(c.args());
                a = s.step(ok());
            }
            OpenAction::LoadContext { .. } => break,
            _ => panic!("unexpected action"),
        }
    }
    match s.step(OpenEvent::Context(ctx)) {
        OpenAction::Finish(Ok(p)) => (p, seen),
        _ => panic!("expected a payload"),
    }
}

#[test]
fn kill_request_is_acknowledged() {
    let (mut s, a) = SessionOpen::start();
    assert_eq!(git_cmd(&a), args(&["fetch", "origin"]));
    assert_eq!(git_cmd(&s.step(ok())), args(&["checkout", "main"]));
    assert!(matches!(s.step(ok()), OpenAction::CheckKillFile));
    let mut seen = Vec::new();
    let mut a = s.step(OpenEvent::KillFile(true));
    let payload = loop {
        match a {
            OpenAction::Git(c) => {
                seen.push(c.args());
                a = s.step(ok());
            }
            OpenAction::Finish(Ok(p)) => break p,
            _ => panic!("nothing but git commands may follow a kill request"),
        }
    };
    assert_eq!(
        seen,
        vec![
            args(&["rm", "--ignore-unmatch", ".ink-running"]),
            args(&["rm", "-f", ".ink-kill"]),
            args(&["commit", "-m", "chore: acknowledge kill request"]),
            args(&["push", "origin", "main"]),
        ]
    );
    assert!(payload.kill_requested);
    assert!(!payload.session_already_run);
    assert!(payload.global_material.is_empty());
    assert!(payload.chapters.current.is_none() && payload.chapters.next.is_none());
    assert!(payload.current_review.content.is_empty());
}

#[test]
fn kill_acknowledgement_failure_is_reported() {
    let (mut s, _) = SessionOpen::start();
    s.step(ok());
    s.step(ok());
    s.step(OpenEvent::KillFile(true));
    s.step(ok());
    match s.step(OpenEvent::Git(Err("no such file".to_string()))) {
        OpenAction::Finish(Err(OpenError::Git(e))) => {
            assert!(matches!(e.command, GitCommand::RemoveKill));
            assert_eq!(e.stderr, "no such file");
        }
        _ => panic!("expected a git error"),
    }
}

#[test]
fn remote_only_divergence_is_detected_but_not_committed() {
    let one = vec![Ok(String::new())];
    let local = match collect_modified_files(&one) {
        GitStep::Done(Ok(v)) => v,
        _ => panic!(),
    };
    assert!(local.is_empty());
    let diff = vec![Ok("Chapters material/Chapter_01.md\n".to_string())];
    let remote = match collect_diffs_vs_remote(&diff) {
        GitStep::Done(Ok(v)) => v,
        _ => panic!(),
    };
    let edits = merge_human_edits(&local, &remote);
    assert_eq!(edits, vec!["Chapters material/Chapter_01.md".to_string()]);
    let none: Vec<GitOutcome> = vec![];
    assert!(matches!(commit_human_edits(&edits, &none), GitStep::Run(GitCommand::AddAll)));
    let added = vec![Ok(String::new())];
    assert!(matches!(commit_human_edits(&edits, &added), GitStep::Run(GitCommand::StagedQuiet)));
    let clean = vec![Ok(String::new()), Ok(String::new())];
    assert!(matches!(commit_human_edits(&edits, &clean), GitStep::Done(Ok(false))));
}

#[test]
fn staged_changes_are_committed_once() {
    let edits = vec!["Review/current.md".to_string()];
    let staged = vec![Ok(String::new()), Err(String::new())];
    assert!(matches!(
        commit_human_edits(&edits, &staged),
        GitStep::Run(GitCommand::Commit(CommitMessage::HumanUpdates))
    ));
    let done = vec![Ok(String::new()), Err(String::new()), Ok(String::new())];
    assert!(matches!(commit_human_edits(&edits, &done), GitStep::Done(Ok(true))));
    let none: Vec<String> = vec![];
    assert!(matches!(commit_human_edits(&none, &vec![]), GitStep::Done(Ok(false))));
}

#[test]
fn status_lines_keep_their_leading_column() {
    let out = vec![Ok(" M Review/current.md\n?? Notes/new idea.md\nD  old.md\n\nx\n".to_string())];
    match collect_modified_files(&out) {
        GitStep::Done(Ok(v)) => assert_eq!(v, vec!["Review/current.md", "Notes/new idea.md", "old.md"]),
        _ => panic!(),
    }
    let failed = vec![Err("not a repository".to_string())];
    assert!(matches!(collect_modified_files(&failed), GitStep::Done(Err(_))));
    let no_remote = vec![Err("unknown revision".to_string())];
    assert!(matches!(collect_diffs_vs_remote(&no_remote), GitStep::Done(Ok(v)) if v.is_empty()));
}

#[test]
fn human_edit_union_keeps_order_without_duplicates() {
    let local = vec!["b.md".to_string(), "a.md".to_string()];
    let remote = vec!["a.md".to_string(), "c.md".to_string(), "c.md".to_string()];
    assert_eq!(merge_human_edits(&local, &remote), vec!["b.md", "a.md", "c.md"]);
}

#[test]
fn draft_branch_is_created_when_missing() {
    assert!(matches!(setup_draft_branch(&vec![]), GitStep::Run(GitCommand::CheckoutDraft)));
    let missing = vec![Err("no branch".to_string())];
    assert!(matches!(setup_draft_branch(&missing), GitStep::Run(GitCommand::CreateDraft)));
    let created = vec![Err("no branch".to_string()), Ok(String::new())];
    assert!(matches!(setup_draft_branch(&created), GitStep::Run(GitCommand::RebaseOntoMain)));
    let rebased = vec![Ok(String::new()), Ok(String::new())];
    assert!(matches!(setup_draft_branch(&rebased), GitStep::Done(Ok(()))));
}

#[test]
fn command_arguments() {
    assert_eq!(GitCommand::Commit(CommitMessage::HumanUpdates).args(), args(&["commit", "-m", "chore: human updates"]));
    assert_eq!(GitCommand::Tag("ink-x".to_string()).args(), args(&["tag", "ink-x"]));
    assert_eq!(GitCommand::MergeFfOriginMain.args(), args(&["merge", "--ff-only", "origin/main"]));
}

#[test]
fn snapshot_tag_uses_the_local_clock() {
    let tag = snapshot_tag_name();
    assert!(tag.starts_with("ink-"));
    assert!(!tag.contains('%'));
    assert!(!tag.contains(' ') && !tag.contains(':'));
    assert_eq!(tag.len(), "ink-2024-01-01-00-00".len());
}

#[test]
fn admitted_session_builds_the_payload() {
    let (mut s, seen) = open_until_lock(" M Review/current.md\n", Ok("Chapters material/Chapter_02.md\n".to_string()), 2_700);
    assert!(seen.contains(&args(&["commit", "-m", "chore: human updates"])));
    let merge = seen.iter().position(|c| *c == args(&["merge", "--ff-only", "origin/main"])).unwrap();
    let commit = seen.iter().position(|c| *c == args(&["commit", "-m", "chore: human updates"])).unwrap();
    assert!(commit < merge);
    assert!(seen.iter().any(|c| c[0] == "tag"));
    let a = s.step(OpenEvent::LockFile(None));
    let ctx = ContextFiles {
        material: vec![("Soul.md".to_string(), "voice".to_string())],
        current_chapter: Some("two".to_string()),
        next_chapter: Some("three".to_string()),
        review: Some("Draft. <!-- INK: tighten -->\n\nMore.".to_string()),
        book: Some("one two three".to_string()),
    };
    let (p, later) = finish_admitted(s, a, ctx);
    assert_eq!(later[0], args(&["add", ".ink-running"]));
    assert_eq!(later[1], args(&["commit", "-m", "chore: open session lock"]));
    assert!(!p.session_already_run && !p.kill_requested && !p.stale_lock_recovered);
    assert_eq!(p.human_edits, vec!["Review/current.md", "Chapters material/Chapter_02.md"]);
    assert!(p.chapter_close_suggested);
    assert_eq!(p.chapter_progress_pct, 90);
    let cur = p.chapters.current.unwrap();
    assert_eq!(cur.path, "Chapters material/Chapter_02.md");
    assert!(cur.modified_today);
    assert_eq!(p.chapters.next.unwrap().path, "Chapters material/Chapter_03.md");
    assert_eq!(p.current_review.content, "Draft. \n\nMore.");
    assert_eq!(p.current_review.instructions[0].instruction, "tighten");
    assert_eq!((p.word_count.total, p.word_count.target, p.word_count.remaining), (3, 10, 7));
    assert_eq!(p.global_material[0].filename, "Soul.md");
}

#[test]
fn next_chapter_is_not_requested_far_from_close() {
    let (mut s, _) = open_until_lock("", Ok(String::new()), 100);
    let a = s.step(OpenEvent::LockFile(None));
    let mut s2 = s;
    let mut a = match a {
        OpenAction::WriteLockFile(_) => s2.step(OpenEvent::FileDone(Ok(()))),
        _ => panic!(),
    };
    loop {
        match a {
            OpenAction::Git(_) => a = s2.step(ok()),
            OpenAction::LoadContext { current_chapter, next_chapter } => {
                assert_eq!(current_chapter, "Chapters material/Chapter_02.md");
                assert!(next_chapter.is_none());
                break;
            }
            _ => panic!(),
        }
    }
}

#[test]
fn active_lock_refuses_the_session() {
    let (mut s, _) = open_until_lock("", Err("no remote".to_string()), 0);
    let now = chrono::Utc::now().to_rfc3339();
    match s.step(OpenEvent::LockFile(Some(now))) {
        OpenAction::Finish(Ok(p)) => {
            assert!(p.session_already_run);
            assert!(p.global_material.is_empty());
            assert_eq!(p.word_count.target, 10);
        }
        _ => panic!("expected the session to be refused"),
    }
}

#[test]
fn stale_lock_is_recovered() {
    let (mut s, _) = open_until_lock("", Ok(String::new()), 0);
    let a = s.step(OpenEvent::LockFile(Some("2000-01-01T00:00:00Z".to_string())));
    assert!(matches!(a, OpenAction::RemoveLockFile));
    let a = s.step(OpenEvent::FileDone(Ok(())));
    let ctx = ContextFiles { material: vec![], current_chapter: None, next_chapter: None, review: None, book: None };
    let (p, _) = finish_admitted(s, a, ctx);
    assert!(p.stale_lock_recovered);
    assert!(p.chapters.current.is_none());
    assert_eq!(p.word_count.total, 0);
}

#[test]
fn invalid_settings_stop_the_session() {
    let (mut s, _) = SessionOpen::start();
    s.step(ok());
    s.step(ok());
    s.step(OpenEvent::KillFile(false));
    let mut c = config();
    c.words_per_chapter = 0;
    let st = InkState { current_chapter: 1, current_chapter_word_count: 0 };
    assert!(matches!(s.step(OpenEvent::Settings(c, st)), OpenAction::Finish(Err(OpenError::Config(_)))));
    let (mut s, _) = SessionOpen::start();
    s.step(ok());
    s.step(ok());
    s.step(OpenEvent::KillFile(false));
    let st = InkState { current_chapter: 0, current_chapter_word_count: 0 };
    assert!(matches!(s.step(OpenEvent::Settings(config(), st)), OpenAction::Finish(Err(OpenError::State(_)))));
}

#[test]
fn failed_fast_forward_is_fatal() {
    let (mut s, _) = SessionOpen::start();
    s.step(ok());
    s.step(ok());
    s.step(OpenEvent::KillFile(false));
    let st = InkState { current_chapter: 1, current_chapter_word_count: 0 };
    s.step(OpenEvent::Settings(config(), st));
    s.step(OpenEvent::Git(Ok(String::new())));
    let a = s.step(OpenEvent::Git(Ok(String::new())));
    assert_eq!(git_cmd(&a), args(&["merge", "--ff-only", "origin/main"]));
    match s.step(OpenEvent::Git(Err("not possible to fast-forward".to_string()))) {
        OpenAction::Finish(Err(OpenError::Git(e))) => assert!(matches!(e.command, GitCommand::MergeFfOriginMain)),
        _ => panic!(),
    }
}

#[test]
fn unexpected_event_is_an_error() {
    let (mut s, _) = SessionOpen::start();
    assert!(matches!(s.step(OpenEvent::KillFile(true)), OpenAction::Finish(Err(OpenError::UnexpectedEvent))));
}

#[test]
fn close_files_content() {
    let edits = vec!["Review/current.md".to_string()];
    let f = close_files("  Hello there world", None, &edits, "2024-05-01 10:30", "Old", "Intro");
    assert_eq!(f.review, "  Hello there world");
    assert_eq!(f.summary, "Old\n\nSession 2024-05-01 10:30 \u{2014} 3 words written.");
    assert_eq!(f.changelog_name, "2024-05-01-10-30.md");
    assert_eq!(
        f.changelog,
        "# Session 2024-05-01 10:30\n\n**Words written:** 3\n\n**Human edits:**\n- Review/current.md\n"
    );
    assert_eq!(f.book, "Intro\n\nHello there world");
    assert_eq!((f.session_words, f.total_words), (3, 4));
    let f = close_files("Text.", Some("  It went well. "), &vec![], "s", "", "Intro\n");
    assert_eq!(f.summary, "\n\nIt went well.");
    assert_eq!(f.changelog, "# Session s\n\n**Words written:** 1\n\n**Summary:**\nIt went well.\n");
    assert_eq!(f.book, "Intro\n\nText.");
}

#[test]
fn close_without_lock_is_refused() {
    let (_, a) = SessionClose::start(false, "prose".to_string(), None, vec![]);
    assert!(matches!(a, CloseAction::Finish(Err(CloseError::NoActiveSession))));
}

#[test]
fn close_commits_once_and_merges() {
    let (mut c, a) = SessionClose::start(true, "Nine more words of prose go right here now.".to_string(), None, vec![]);
    assert!(matches!(a, CloseAction::LoadInputs));
    let a = c.step(CloseEvent::Inputs { config: config(), summary_text: Some("Old".to_string()), book: None });
    let files = match a {
        CloseAction::WriteFiles(f) => f,
        _ => panic!(),
    };
    assert!(files.summary.starts_with("Old\n\nSession "));
    assert!(files.summary.ends_with(" \u{2014} 9 words written."));
    assert!(files.changelog_name.ends_with(".md") && !files.changelog_name.contains(' '));
    let mut a = c.step(CloseEvent::FilesWritten(Ok(())));
    let mut seen = Vec::new();
    let payload = loop {
        match a {
            CloseAction::Git(cmd) => {
                seen.push(cmd.args());
                a = c.step(CloseEvent::Git(Ok(String::new())));
            }
            CloseAction::Finish(Ok(p)) => break p,
            _ => panic!(),
        }
    };
    assert_eq!(
        seen,
        vec![
            args(&["rm", "-f", ".ink-running"]),
            args(&["add", "-A"]),
            args(&["commit", "-m", "session: write prose"]),
            args(&["push", "origin", "draft"]),
            args(&["checkout", "main"]),
            args(&["merge", "--ff-only", "draft"]),
            args(&["push", "origin", "main"]),
        ]
    );
    assert_eq!(seen.iter().filter(|c| c[0] == "commit").count(), 1);
    assert_eq!((payload.session_word_count, payload.total_word_count, payload.target_length), (9, 9, 10));
    assert!(payload.completion_ready);
    assert_eq!(payload.status, "closed");
}

#[test]
fn close_push_failure_is_reported() {
    let (mut c, _) = SessionClose::start(true, "x".to_string(), None, vec![]);
    c.step(CloseEvent::Inputs { config: config(), summary_text: None, book: None });
    c.step(CloseEvent::FilesWritten(Ok(())));
    c.step(CloseEvent::Git(Ok(String::new())));
    c.step(CloseEvent::Git(Ok(String::new())));
    c.step(CloseEvent::Git(Ok(String::new())));
    match c.step(CloseEvent::Git(Err("rejected".to_string()))) {
        CloseAction::Finish(Err(CloseError::Git(e))) => assert!(matches!(e.command, GitCommand::PushDraft)),
        _ => panic!(),
    }
}

#[test]
fn completion_runs_once() {
    let (_, a) = Completion::start(true);
    assert!(matches!(a, CompleteAction::Finish(Err(CompleteError::AlreadyComplete))));
    let (mut c, a) = Completion::start(false);
    assert!(matches!(a, CompleteAction::Git(GitCommand::CheckoutMain)));
    assert!(matches!(c.step(CompleteEvent::Git(Ok(String::new()))), CompleteAction::WriteMarker));
    assert!(matches!(c.step(CompleteEvent::MarkerWritten(Ok(()))), CompleteAction::Inspect));
    let mut a = c.step(CompleteEvent::Inspected { lock_present: true, book: Some("a b c".to_string()) });
    let mut seen = Vec::new();
    let p = loop {
        match a {
            CompleteAction::Git(cmd) => {
                seen.push(cmd.args());
                a = c.step(CompleteEvent::Git(Ok(String::new())));
            }
            CompleteAction::Finish(Ok(p)) => break p,
            _ => panic!(),
        }
    };
    assert_eq!(seen[0], args(&["rm", "-f", ".ink-running"]));
    assert_eq!(seen[2], args(&["commit", "-m", "book: complete"]));
    assert_eq!(p.total_word_count, 3);
    assert_eq!(p.status, "complete");
}
