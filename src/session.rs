//! Opening a session.
//!
//! `SessionOpen` is a state machine: `start` gives the first action and
//! `step` takes the outcome of the last action and gives the next one, until
//! an action `Finish` carries the result. The caller performs each action
//! (a version-control command, a file read or write) and reports back. The
//! order is the protocol: sync with the remote, honour a kill request before
//! anything else, commit human edits before fast-forwarding, tag and push,
//! then admit the session against the lock, publish a fresh lock, switch to
//! the working branch and assemble the context.
use vstd::prelude::*;
use crate::clock::{local_now_text, utc_now_rfc3339};
use crate::config::{Config, ConfigError, ConfigSnapshot};
use crate::context::{
    chapter_file_name, chapter_info_spec, chapter_path, file_views, load_chapter,
    load_global_material, material_entries, pair_views, sorted_by_name, Chapters, FileContent,
};
use crate::git::{
    collect_diffs_vs_remote, collect_modified_files, commit_edits_step, commit_human_edits,
    create_snapshot_tag, delete_kill_file, diff_paths, draft_step, kill_commands, lock_commands,
    merge_ff_origin_main, merge_human_edits, preflight_commands, preflight_fetch_and_checkout,
    create_lock, push_tags, sequence_step, setup_draft_branch, status_paths, string_views,
    union_paths, GitCommand, GitError, GitOutcome, GitStep,
};
use crate::instructions::{extract_ink_instructions, instruction_views, instructions_from, stripped_from, Instruction};
use crate::lock::{age_from_some_clock, classify_lock, classify_spec, read_lock_age, LockState};
use crate::progress::{
    chapter_close_suggested, chapter_progress_pct, clamp_u32, fit_review, fitted_review,
    load_word_count, progress_pct, reaches_ninety_percent, WordCount,
};
use crate::state::{InkState, StateError};
use crate::text::{chars_of, push_str, to_string, word_count};

verus! {

#[derive(Debug)]
pub struct CurrentReview {
    pub content: String,
    pub instructions: Vec<Instruction>,
}

/// Everything handed to the generation step.
#[derive(Debug)]
pub struct SessionPayload {
    pub session_already_run: bool,
    pub kill_requested: bool,
    pub stale_lock_recovered: bool,
    pub snapshot_tag: String,
    pub human_edits: Vec<String>,
    pub config: ConfigSnapshot,
    pub global_material: Vec<FileContent>,
    pub chapters: Chapters,
    pub current_review: CurrentReview,
    pub word_count: WordCount,
    pub chapter_close_suggested: bool,
    pub current_chapter_word_count: u32,
    pub chapter_progress_pct: u8,
}

/// The files the context is assembled from, as read by the caller.
pub struct ContextFiles {
    /// Name and text of each regular file of the reference directory.
    pub material: Vec<(String, String)>,
    /// Text of the current chapter's file, if it exists.
    pub current_chapter: Option<String>,
    /// Text of the next chapter's file, if it was asked for and exists.
    pub next_chapter: Option<String>,
    /// Text of the review document, if it exists.
    pub review: Option<String>,
    /// Text of the full book, if it exists.
    pub book: Option<String>,
}

pub open spec fn snapshot_spec(s: ConfigSnapshot, c: Config, current_chapter: u32) -> bool {
    &&& s.target_length == c.target_length
    &&& s.chapter_count == c.chapter_count
    &&& s.chapter_structure@ == c.chapter_structure@
    &&& s.words_per_session == c.words_per_session
    &&& s.summary_context_entries == c.summary_context_entries
    &&& s.words_per_chapter == c.words_per_chapter
    &&& s.current_chapter == current_chapter
}

pub open spec fn review_text(review: Option<String>) -> Seq<char> {
    match review {
        Some(t) => t@,
        None => Seq::empty(),
    }
}

pub open spec fn book_words(book: Option<String>) -> int {
    match book {
        Some(b) => clamp_u32(word_count(b@) as int),
        None => 0,
    }
}

/// Whether the next chapter is loaded: a chapter close is near and a next
/// chapter number exists.
pub open spec fn wants_next(close: bool, current_chapter: u32) -> bool {
    close && current_chapter < u32::MAX
}

/// The payload of an admitted session.
pub open spec fn payload_spec(
    p: SessionPayload,
    config: Config,
    state: InkState,
    edits: Seq<String>,
    tag: String,
    stale: bool,
    ctx: ContextFiles,
) -> bool {
    let close = reaches_ninety_percent(
        state.current_chapter_word_count as int,
        config.words_per_chapter as int,
    );
    let raw = review_text(ctx.review);
    &&& !p.session_already_run
    &&& !p.kill_requested
    &&& p.stale_lock_recovered == stale
    &&& p.snapshot_tag == tag
    &&& p.human_edits@ == edits
    &&& snapshot_spec(p.config, config, state.current_chapter)
    &&& sorted_by_name(file_views(p.global_material@))
    &&& file_views(p.global_material@).to_multiset() == material_entries(
        pair_views(ctx.material@),
        config.summary_context_entries as int,
    ).to_multiset()
    &&& chapter_info_spec(
        p.chapters.current,
        state.current_chapter as nat,
        ctx.current_chapter,
        string_views(edits),
    )
    &&& (if wants_next(close, state.current_chapter) {
        chapter_info_spec(
            p.chapters.next,
            (state.current_chapter + 1) as nat,
            ctx.next_chapter,
            string_views(edits),
        )
    } else {
        p.chapters.next is None
    })
    &&& p.current_review.content@ == fitted_review(
        stripped_from(raw, 0),
        config.current_review_window_words as int,
    )
    &&& instruction_views(p.current_review.instructions@) == instructions_from(raw, 0)
    &&& p.word_count.total == book_words(ctx.book)
    &&& p.word_count.target == config.target_length
    &&& p.word_count.remaining == (if config.target_length >= p.word_count.total {
        config.target_length - p.word_count.total
    } else {
        0
    })
    &&& p.chapter_close_suggested == close
    &&& p.current_chapter_word_count == state.current_chapter_word_count
    &&& p.chapter_progress_pct == progress_pct(
        state.current_chapter_word_count as int,
        config.words_per_chapter as int,
    )
}

fn copy_strings(v: &Vec<String>) -> (r: Vec<String>)
    ensures
        r@ == v@,
{
    let mut r: Vec<String> = Vec::new();
    let mut k: usize = 0;
    while k < v.len()
        invariant
            k <= v.len(),
            r@ == v@.take(k as int),
        decreases v.len() - k,
    {
        r.push(v[k].clone());
        assert(r@ =~= v@.take(k + 1));
        k = k + 1;
    }
    assert(v@.take(v.len() as int) =~= v@);
    r
}

/// Assemble the payload of an admitted session.
pub fn build_payload(
    config: &Config,
    state: InkState,
    human_edits: &Vec<String>,
    tag: &String,
    stale: bool,
    ctx: ContextFiles,
) -> (r: SessionPayload)
    ensures
        payload_spec(r, *config, state, human_edits@, *tag, stale, ctx),
{
    let ghost ctx0 = ctx;
    let close = chapter_close_suggested(state.current_chapter_word_count, config.words_per_chapter);
    let global_material = load_global_material(&ctx.material, config.summary_context_entries);
    let current = load_chapter(state.current_chapter, ctx.current_chapter, human_edits);
    let next = if close && state.current_chapter < u32::MAX {
        load_chapter(state.current_chapter + 1, ctx.next_chapter, human_edits)
    } else {
        None
    };
    let raw = match ctx.review {
        Some(t) => t,
        None => String::new(),
    };
    let (stripped, instructions) = extract_ink_instructions(raw.as_str());
    let content = fit_review(stripped.as_str(), config.current_review_window_words);
    let word_count = match &ctx.book {
        Some(b) => load_word_count(Some(b.as_str()), config.target_length),
        None => load_word_count(None, config.target_length),
    };
    SessionPayload {
        session_already_run: false,
        kill_requested: false,
        stale_lock_recovered: stale,
        snapshot_tag: tag.clone(),
        human_edits: copy_strings(human_edits),
        config: ConfigSnapshot::new(config, state.current_chapter),
        global_material,
        chapters: Chapters { current, next },
        current_review: CurrentReview { content, instructions },
        word_count,
        chapter_close_suggested: close,
        current_chapter_word_count: state.current_chapter_word_count,
        chapter_progress_pct: chapter_progress_pct(
            state.current_chapter_word_count,
            config.words_per_chapter,
        ),
    }
}


/// The payload when a kill request was acknowledged: nothing loaded.
pub open spec fn killed_spec(p: SessionPayload) -> bool {
    &&& p.kill_requested
    &&& !p.session_already_run
    &&& !p.stale_lock_recovered
    &&& p.snapshot_tag@.len() == 0
    &&& p.human_edits@.len() == 0
    &&& p.config.target_length == 0
    &&& p.config.current_chapter == 1
    &&& p.global_material@.len() == 0
    &&& p.chapters.current is None
    &&& p.chapters.next is None
    &&& p.current_review.content@.len() == 0
    &&& p.current_review.instructions@.len() == 0
    &&& p.word_count.total == 0 && p.word_count.target == 0 && p.word_count.remaining == 0
    &&& !p.chapter_close_suggested
    &&& p.current_chapter_word_count == 0
    &&& p.chapter_progress_pct == 0
}

pub fn killed_payload() -> (r: SessionPayload)
    ensures
        killed_spec(r),
{
    SessionPayload {
        session_already_run: false,
        kill_requested: true,
        stale_lock_recovered: false,
        snapshot_tag: String::new(),
        human_edits: Vec::new(),
        config: ConfigSnapshot::empty(),
        global_material: Vec::new(),
        chapters: Chapters { current: None, next: None },
        current_review: CurrentReview { content: String::new(), instructions: Vec::new() },
        word_count: WordCount { total: 0, target: 0, remaining: 0 },
        chapter_close_suggested: false,
        current_chapter_word_count: 0,
        chapter_progress_pct: 0,
    }
}

/// The payload when another session holds the lock: nothing loaded.
pub open spec fn active_spec(
    p: SessionPayload,
    config: Config,
    state: InkState,
    edits: Seq<String>,
    tag: String,
) -> bool {
    &&& p.session_already_run
    &&& !p.kill_requested
    &&& !p.stale_lock_recovered
    &&& p.snapshot_tag == tag
    &&& p.human_edits@ == edits
    &&& snapshot_spec(p.config, config, state.current_chapter)
    &&& p.global_material@.len() == 0
    &&& p.chapters.current is None
    &&& p.chapters.next is None
    &&& p.current_review.content@.len() == 0
    &&& p.current_review.instructions@.len() == 0
    &&& p.word_count.total == 0 && p.word_count.target == config.target_length
        && p.word_count.remaining == 0
    &&& !p.chapter_close_suggested
    &&& p.current_chapter_word_count == state.current_chapter_word_count
    &&& p.chapter_progress_pct == 0
}

pub fn active_payload(config: &Config, state: InkState, human_edits: &Vec<String>, tag: &String) -> (r:
    SessionPayload)
    ensures
        active_spec(r, *config, state, human_edits@, *tag),
{
    SessionPayload {
        session_already_run: true,
        kill_requested: false,
        stale_lock_recovered: false,
        snapshot_tag: tag.clone(),
        human_edits: copy_strings(human_edits),
        config: ConfigSnapshot::new(config, state.current_chapter),
        global_material: Vec::new(),
        chapters: Chapters { current: None, next: None },
        current_review: CurrentReview { content: String::new(), instructions: Vec::new() },
        word_count: WordCount { total: 0, target: config.target_length, remaining: 0 },
        chapter_close_suggested: false,
        current_chapter_word_count: state.current_chapter_word_count,
        chapter_progress_pct: 0,
    }
}

/// Name of the snapshot tag: `ink-` and the local time, dash-separated.
pub fn snapshot_tag_name() -> (r: String)
    ensures
        r@.len() >= 4,
        r@.take(4) == "ink-"@,
{
    let stamp = local_now_text("%Y-%m-%d %H:%M");
    let c = chars_of(stamp.as_str());
    let mut v: Vec<char> = Vec::new();
    push_str("ink-", &mut v);
    let ghost head = v@;
    proof {
        reveal_strlit("ink-");
    }
    let mut i: usize = 0;
    while i < c.len()
        invariant
            i <= c.len(),
            head == "ink-"@,
            v@.len() == 4 + i,
            v@.take(4) == head,
        decreases c.len() - i,
    {
        if c[i] == ' ' || c[i] == ':' {
            v.push('-');
        } else {
            v.push(c[i]);
        }
        i = i + 1;
        assert(v@.take(4) =~= head);
    }
    to_string(&v)
}

#[derive(Debug, PartialEq, Eq, Structural, Clone, Copy)]
pub enum OpenPhase {
    Preflight,
    KillProbe,
    KillLock,
    KillFile,
    Settings,
    Status,
    Diff,
    Commit,
    Merge,
    Tag,
    Push,
    ReadLock,
    RemoveStale,
    WriteLock,
    PublishLock,
    Draft,
    Context,
    Finished,
}

/// What the caller reports after performing an action.
pub enum OpenEvent {
    /// Outcome of a version-control command.
    Git(GitOutcome),
    /// Whether the kill-request file exists.
    KillFile(bool),
    /// The configuration and the session state, as read and parsed.
    Settings(Config, InkState),
    /// The configuration or the session state could not be read or parsed.
    SettingsUnreadable(String),
    /// Text of the lock file, if it exists.
    LockFile(Option<String>),
    /// Outcome of removing or writing the lock file.
    FileDone(Result<(), String>),
    /// The files of the context.
    Context(ContextFiles),
}

/// What the caller is asked to do next.
pub enum OpenAction {
    Git(GitCommand),
    CheckKillFile,
    /// Read and parse the configuration and the session state.
    LoadSettings,
    ReadLockFile,
    /// Delete the lock file locally, without touching history.
    RemoveLockFile,
    /// Write the lock file with this text.
    WriteLockFile(String),
    /// Read the context files; chapter paths are relative to the repository.
    LoadContext { current_chapter: String, next_chapter: Option<String> },
    Finish(Result<SessionPayload, OpenError>),
}

#[derive(Debug)]
pub enum OpenError {
    Git(GitError),
    Config(ConfigError),
    State(StateError),
    Io(String),
    /// An event that the current phase does not expect.
    UnexpectedEvent,
}

/// Progress of one session-open.
pub struct SessionOpen {
    pub phase: OpenPhase,
    /// Outcomes of the commands of the current phase.
    pub log: Vec<GitOutcome>,
    pub config: Option<Config>,
    pub state: InkState,
    /// Paths changed in the working tree.
    pub modified: Vec<String>,
    /// The human edit set.
    pub human_edits: Vec<String>,
    pub tag: String,
    /// Age in minutes of the lock found, if any.
    pub lock_age: Option<i64>,
    pub stale: bool,
}

pub open spec fn needs_settings(p: OpenPhase) -> bool {
    !(p == OpenPhase::Preflight || p == OpenPhase::KillProbe || p == OpenPhase::KillLock || p
        == OpenPhase::KillFile || p == OpenPhase::Settings || p == OpenPhase::Finished)
}

/// The session data other than the phase and the command log.
pub open spec fn same_data(a: SessionOpen, b: SessionOpen) -> bool {
    &&& a.config == b.config
    &&& a.state == b.state
    &&& a.modified == b.modified
    &&& a.human_edits == b.human_edits
    &&& a.tag == b.tag
    &&& a.lock_age == b.lock_age
    &&& a.stale == b.stale
}

pub open spec fn enters(new: SessionOpen, phase: OpenPhase) -> bool {
    new.phase == phase && new.log@.len() == 0
}

pub open spec fn fails(new: SessionOpen, r: OpenAction, e: OpenError) -> bool {
    new.phase == OpenPhase::Finished && r == OpenAction::Finish(Err(e))
}

/// While a command sequence needs another command, it is issued and the
/// phase stays; a failure ends the session-open with that error.
pub open spec fn continues<T>(
    step: GitStep<T>,
    old: SessionOpen,
    new: SessionOpen,
    r: OpenAction,
    log: Seq<GitOutcome>,
) -> bool {
    match step {
        GitStep::Run(c) => r == OpenAction::Git(c) && new.phase == old.phase && new.log@ == log
            && same_data(old, new),
        GitStep::Done(Err(g)) => fails(new, r, OpenError::Git(g)),
        GitStep::Done(Ok(_)) => true,
    }
}

pub open spec fn succeeded<T>(step: GitStep<T>) -> bool {
    step is Done && step->Done_0 is Ok
}

/// The action that loads the context of chapter `state.current_chapter`.
pub open spec fn context_request(r: OpenAction, config: Config, state: InkState) -> bool {
    let close = reaches_ninety_percent(
        state.current_chapter_word_count as int,
        config.words_per_chapter as int,
    );
    match r {
        OpenAction::LoadContext { current_chapter, next_chapter } => current_chapter@
            == chapter_path(state.current_chapter as nat) && (if wants_next(
            close,
            state.current_chapter,
        ) {
            next_chapter matches Some(n) && n@ == chapter_path((state.current_chapter + 1) as nat)
        } else {
            next_chapter is None
        }),
        _ => false,
    }
}

/// What one step does, phase by phase.
pub open spec fn open_post(old: SessionOpen, e: OpenEvent, new: SessionOpen, r: OpenAction) -> bool {
    match (old.phase, e) {
        (OpenPhase::Preflight, OpenEvent::Git(o)) => {
            let step = sequence_step(preflight_commands(), old.log@.push(o));
            continues(step, old, new, r, old.log@.push(o)) && (succeeded(step) ==> enters(
                new,
                OpenPhase::KillProbe,
            ) && r == OpenAction::CheckKillFile && same_data(old, new))
        },
        (OpenPhase::KillProbe, OpenEvent::KillFile(k)) => same_data(old, new) && if k {
            enters(new, OpenPhase::KillLock) && r == OpenAction::Git(GitCommand::RemoveLockIfPresent)
        } else {
            enters(new, OpenPhase::Settings) && r == OpenAction::LoadSettings
        },
        (OpenPhase::KillLock, OpenEvent::Git(o)) => match o {
            Err(x) => fails(
                new,
                r,
                OpenError::Git(GitError { command: GitCommand::RemoveLockIfPresent, stderr: x }),
            ),
            Ok(_) => enters(new, OpenPhase::KillFile) && r == OpenAction::Git(GitCommand::RemoveKill)
                && same_data(old, new),
        },
        (OpenPhase::KillFile, OpenEvent::Git(o)) => {
            let step = sequence_step(kill_commands(), old.log@.push(o));
            continues(step, old, new, r, old.log@.push(o)) && (succeeded(step) ==> new.phase
                == OpenPhase::Finished && (r matches OpenAction::Finish(Ok(p)) && killed_spec(p)))
        },
        (OpenPhase::Settings, OpenEvent::Settings(c, st)) => if !c.valid() {
            fails(new, r, OpenError::Config(c.first_error()->0))
        } else if !st.valid() {
            fails(new, r, OpenError::State(StateError { current_chapter: st.current_chapter }))
        } else {
            enters(new, OpenPhase::Status) && r == OpenAction::Git(GitCommand::StatusShort)
                && new.config == Some(c) && new.state == st
        },
        (OpenPhase::Settings, OpenEvent::SettingsUnreadable(m)) => fails(new, r, OpenError::Io(m)),
        (OpenPhase::Status, OpenEvent::Git(o)) => match o {
            Err(x) => fails(
                new,
                r,
                OpenError::Git(GitError { command: GitCommand::StatusShort, stderr: x }),
            ),
            Ok(out) => enters(new, OpenPhase::Diff) && r == OpenAction::Git(
                GitCommand::DiffNamesVsOrigin,
            ) && string_views(new.modified@) == status_paths(out@) && new.config == old.config
                && new.state == old.state,
        },
        (OpenPhase::Diff, OpenEvent::Git(o)) => {
            let remote = match o {
                Ok(out) => diff_paths(out@),
                Err(_) => Seq::empty(),
            };
            &&& string_views(new.human_edits@) == union_paths(string_views(old.modified@), remote)
            &&& new.config == old.config
            &&& new.state == old.state
            &&& if new.human_edits@.len() > 0 {
                enters(new, OpenPhase::Commit) && r == OpenAction::Git(GitCommand::AddAll)
            } else {
                enters(new, OpenPhase::Merge) && r == OpenAction::Git(
                    GitCommand::MergeFfOriginMain,
                )
            }
        },
        (OpenPhase::Commit, OpenEvent::Git(o)) => {
            let step = commit_edits_step(true, old.log@.push(o));
            continues(step, old, new, r, old.log@.push(o)) && (succeeded(step) ==> enters(
                new,
                OpenPhase::Merge,
            ) && r == OpenAction::Git(GitCommand::MergeFfOriginMain) && same_data(old, new))
        },
        (OpenPhase::Merge, OpenEvent::Git(o)) => match o {
            Err(x) => fails(
                new,
                r,
                OpenError::Git(GitError { command: GitCommand::MergeFfOriginMain, stderr: x }),
            ),
            Ok(_) => enters(new, OpenPhase::Tag) && r == OpenAction::Git(GitCommand::Tag(new.tag))
                && new.tag@.take(4) == "ink-"@ && new.config == old.config && new.state == old.state
                && new.human_edits == old.human_edits,
        },
        (OpenPhase::Tag, OpenEvent::Git(_)) => enters(new, OpenPhase::Push) && r == OpenAction::Git(
            GitCommand::PushMainWithTags,
        ) && same_data(old, new),
        (OpenPhase::Push, OpenEvent::Git(o)) => match o {
            Err(x) => fails(
                new,
                r,
                OpenError::Git(GitError { command: GitCommand::PushMainWithTags, stderr: x }),
            ),
            Ok(_) => enters(new, OpenPhase::ReadLock) && r == OpenAction::ReadLockFile && same_data(
                old,
                new,
            ),
        },
        (OpenPhase::ReadLock, OpenEvent::LockFile(content)) => {
            &&& (new.lock_age is Some <==> (content is Some && crate::clock::parsed_utc(
                crate::text::trim(content->0@),
            ) is Some))
            &&& (new.lock_age is Some ==> age_from_some_clock(new.lock_age->0, content->0@))
            &&& match classify_spec(new.lock_age, old.config->0.session_timeout_minutes) {
                LockState::Absent => enters(new, OpenPhase::WriteLock) && r is WriteLockFile
                    && new.stale == old.stale,
                LockState::Stale => enters(new, OpenPhase::RemoveStale) && r
                    == OpenAction::RemoveLockFile,
                LockState::Active => new.phase == OpenPhase::Finished && (r matches OpenAction::Finish(
                    Ok(p),
                ) && active_spec(p, old.config->0, old.state, old.human_edits@, old.tag)),
            }
            &&& new.config == old.config
            &&& new.state == old.state
            &&& new.human_edits == old.human_edits
            &&& new.tag == old.tag
        },
        (OpenPhase::RemoveStale, OpenEvent::FileDone(d)) => match d {
            Err(m) => fails(new, r, OpenError::Io(m)),
            Ok(_) => enters(new, OpenPhase::WriteLock) && r is WriteLockFile && new.stale
                && new.config == old.config && new.state == old.state && new.human_edits
                == old.human_edits && new.tag == old.tag,
        },
        (OpenPhase::WriteLock, OpenEvent::FileDone(d)) => match d {
            Err(m) => fails(new, r, OpenError::Io(m)),
            Ok(_) => enters(new, OpenPhase::PublishLock) && r == OpenAction::Git(GitCommand::AddLock)
                && same_data(old, new),
        },
        (OpenPhase::PublishLock, OpenEvent::Git(o)) => {
            let step = sequence_step(lock_commands(), old.log@.push(o));
            continues(step, old, new, r, old.log@.push(o)) && (succeeded(step) ==> enters(
                new,
                OpenPhase::Draft,
            ) && r == OpenAction::Git(GitCommand::CheckoutDraft) && same_data(old, new))
        },
        (OpenPhase::Draft, OpenEvent::Git(o)) => {
            let step = draft_step(old.log@.push(o));
            continues(step, old, new, r, old.log@.push(o)) && (succeeded(step) ==> enters(
                new,
                OpenPhase::Context,
            ) && context_request(r, old.config->0, old.state) && same_data(old, new))
        },
        (OpenPhase::Context, OpenEvent::Context(ctx)) => new.phase == OpenPhase::Finished && (
        r matches OpenAction::Finish(Ok(p)) && payload_spec(
            p,
            old.config->0,
            old.state,
            old.human_edits@,
            old.tag,
            old.stale,
            ctx,
        )),
        _ => fails(new, r, OpenError::UnexpectedEvent),
    }
}


impl SessionOpen {
    pub open spec fn wf(&self) -> bool {
        &&& needs_settings(self.phase) ==> self.config is Some
        &&& self.phase == OpenPhase::Commit ==> self.human_edits@.len() > 0
    }

    /// A new session-open and its first action.
    pub fn start() -> (r: (SessionOpen, OpenAction))
        ensures
            r.0.wf(),
            enters(r.0, OpenPhase::Preflight),
            r.0.config is None,
            r.1 == OpenAction::Git(GitCommand::FetchOrigin),
    {
        let s = SessionOpen {
            phase: OpenPhase::Preflight,
            log: Vec::new(),
            config: None,
            state: InkState { current_chapter: 1, current_chapter_word_count: 0 },
            modified: Vec::new(),
            human_edits: Vec::new(),
            tag: String::new(),
            lock_age: None,
            stale: false,
        };
        (s, OpenAction::Git(GitCommand::FetchOrigin))
    }

    fn fail(&mut self, e: OpenError) -> (r: OpenAction)
        ensures
            fails(*final(self), r, e),
    {
        self.phase = OpenPhase::Finished;
        OpenAction::Finish(Err(e))
    }

    fn enter(&mut self, phase: OpenPhase)
        ensures
            enters(*final(self), phase),
            same_data(*old(self), *final(self)),
    {
        self.phase = phase;
        self.log = Vec::new();
    }

    /// Handle the outcome of the last action; returns the next one.
    pub fn step(&mut self, event: OpenEvent) -> (r: OpenAction)
        requires
            old(self).wf(),
        ensures
            final(self).wf(),
            open_post(*old(self), event, *final(self), r),
    {
        proof {
            reveal_with_fuel(crate::git::sequence_from, 4);
        }
        match (self.phase, event) {
            (OpenPhase::Preflight, OpenEvent::Git(o)) => {
                self.log.push(o);
                match preflight_fetch_and_checkout(&self.log) {
                    GitStep::Run(c) => OpenAction::Git(c),
                    GitStep::Done(Err(g)) => self.fail(OpenError::Git(g)),
                    GitStep::Done(Ok(_)) => {
                        self.enter(OpenPhase::KillProbe);
                        OpenAction::CheckKillFile
                    },
                }
            },
            (OpenPhase::KillProbe, OpenEvent::KillFile(k)) => {
                if k {
                    self.enter(OpenPhase::KillLock);
                    OpenAction::Git(GitCommand::RemoveLockIfPresent)
                } else {
                    self.enter(OpenPhase::Settings);
                    OpenAction::LoadSettings
                }
            },
            (OpenPhase::KillLock, OpenEvent::Git(o)) => match o {
                Err(x) => self.fail(
                    OpenError::Git(GitError { command: GitCommand::RemoveLockIfPresent, stderr: x }),
                ),
                Ok(_) => {
                    self.enter(OpenPhase::KillFile);
                    OpenAction::Git(GitCommand::RemoveKill)
                },
            },
            (OpenPhase::KillFile, OpenEvent::Git(o)) => {
                self.log.push(o);
                match delete_kill_file(&self.log) {
                    GitStep::Run(c) => OpenAction::Git(c),
                    GitStep::Done(Err(g)) => self.fail(OpenError::Git(g)),
                    GitStep::Done(Ok(_)) => {
                        self.phase = OpenPhase::Finished;
                        OpenAction::Finish(Ok(killed_payload()))
                    },
                }
            },
            (OpenPhase::Settings, OpenEvent::Settings(c, st)) => {
                match c.validate() {
                    Err(e) => self.fail(OpenError::Config(e)),
                    Ok(_) => match st.validate() {
                        Err(e) => self.fail(OpenError::State(e)),
                        Ok(_) => {
                            self.enter(OpenPhase::Status);
                            self.config = Some(c);
                            self.state = st;
                            OpenAction::Git(GitCommand::StatusShort)
                        },
                    },
                }
            },
            (OpenPhase::Settings, OpenEvent::SettingsUnreadable(m)) => self.fail(OpenError::Io(m)),
            (OpenPhase::Status, OpenEvent::Git(o)) => {
                let one = vec![o];
                match collect_modified_files(&one) {
                    GitStep::Done(Ok(files)) => {
                        self.enter(OpenPhase::Status);
                        self.modified = files;
                        self.phase = OpenPhase::Diff;
                        OpenAction::Git(GitCommand::DiffNamesVsOrigin)
                    },
                    GitStep::Done(Err(g)) => self.fail(OpenError::Git(g)),
                    GitStep::Run(_) => self.fail(OpenError::UnexpectedEvent),
                }
            },
            (OpenPhase::Diff, OpenEvent::Git(o)) => {
                let one = vec![o];
                let remote = match collect_diffs_vs_remote(&one) {
                    GitStep::Done(Ok(files)) => files,
                    _ => Vec::new(),
                };
                self.human_edits = merge_human_edits(&self.modified, &remote);
                let none: Vec<GitOutcome> = Vec::new();
                match commit_human_edits(&self.human_edits, &none) {
                    GitStep::Run(c) => {
                        self.enter(OpenPhase::Commit);
                        OpenAction::Git(c)
                    },
                    _ => {
                        self.enter(OpenPhase::Merge);
                        OpenAction::Git(GitCommand::MergeFfOriginMain)
                    },
                }
            },
            (OpenPhase::Commit, OpenEvent::Git(o)) => {
                self.log.push(o);
                match commit_human_edits(&self.human_edits, &self.log) {
                    GitStep::Run(c) => OpenAction::Git(c),
                    GitStep::Done(Err(g)) => self.fail(OpenError::Git(g)),
                    GitStep::Done(Ok(_)) => {
                        self.enter(OpenPhase::Merge);
                        OpenAction::Git(GitCommand::MergeFfOriginMain)
                    },
                }
            },
            (OpenPhase::Merge, OpenEvent::Git(o)) => {
                let one = vec![o];
                match merge_ff_origin_main(&one) {
                    GitStep::Done(Ok(_)) => {
                        self.enter(OpenPhase::Tag);
                        self.tag = snapshot_tag_name();
                        let none: Vec<GitOutcome> = Vec::new();
                        match create_snapshot_tag(&self.tag, &none) {
                            GitStep::Run(c) => OpenAction::Git(c),
                            GitStep::Done(_) => self.fail(OpenError::UnexpectedEvent),
                        }
                    },
                    GitStep::Done(Err(g)) => self.fail(OpenError::Git(g)),
                    GitStep::Run(_) => self.fail(OpenError::UnexpectedEvent),
                }
            },
            (OpenPhase::Tag, OpenEvent::Git(o)) => {
                let one = vec![o];
                let _ = create_snapshot_tag(&self.tag, &one);
                self.enter(OpenPhase::Push);
                OpenAction::Git(GitCommand::PushMainWithTags)
            },
            (OpenPhase::Push, OpenEvent::Git(o)) => {
                let one = vec![o];
                match push_tags(&one) {
                    GitStep::Done(Ok(_)) => {
                        self.enter(OpenPhase::ReadLock);
                        OpenAction::ReadLockFile
                    },
                    GitStep::Done(Err(g)) => self.fail(OpenError::Git(g)),
                    GitStep::Run(_) => self.fail(OpenError::UnexpectedEvent),
                }
            },
            (OpenPhase::ReadLock, OpenEvent::LockFile(content)) => {
                let age = match &content {
                    Some(c) => read_lock_age(Some(c.as_str())),
                    None => read_lock_age(None),
                };
                self.lock_age = age;
                let timeout = self.config.as_ref().unwrap().session_timeout_minutes;
                match classify_lock(age, timeout) {
                    LockState::Absent => {
                        self.enter(OpenPhase::WriteLock);
                        OpenAction::WriteLockFile(utc_now_rfc3339())
                    },
                    LockState::Stale => {
                        self.enter(OpenPhase::RemoveStale);
                        OpenAction::RemoveLockFile
                    },
                    LockState::Active => {
                        let p = active_payload(
                            self.config.as_ref().unwrap(),
                            self.state,
                            &self.human_edits,
                            &self.tag,
                        );
                        self.phase = OpenPhase::Finished;
                        OpenAction::Finish(Ok(p))
                    },
                }
            },
            (OpenPhase::RemoveStale, OpenEvent::FileDone(d)) => match d {
                Err(m) => self.fail(OpenError::Io(m)),
                Ok(_) => {
                    self.enter(OpenPhase::WriteLock);
                    self.stale = true;
                    OpenAction::WriteLockFile(utc_now_rfc3339())
                },
            },
            (OpenPhase::WriteLock, OpenEvent::FileDone(d)) => match d {
                Err(m) => self.fail(OpenError::Io(m)),
                Ok(_) => {
                    self.enter(OpenPhase::PublishLock);
                    OpenAction::Git(GitCommand::AddLock)
                },
            },
            (OpenPhase::PublishLock, OpenEvent::Git(o)) => {
                self.log.push(o);
                match create_lock(&self.log) {
                    GitStep::Run(c) => OpenAction::Git(c),
                    GitStep::Done(Err(g)) => self.fail(OpenError::Git(g)),
                    GitStep::Done(Ok(_)) => {
                        self.enter(OpenPhase::Draft);
                        OpenAction::Git(GitCommand::CheckoutDraft)
                    },
                }
            },
            (OpenPhase::Draft, OpenEvent::Git(o)) => {
                self.log.push(o);
                match setup_draft_branch(&self.log) {
                    GitStep::Run(c) => OpenAction::Git(c),
                    GitStep::Done(Err(g)) => self.fail(OpenError::Git(g)),
                    GitStep::Done(Ok(_)) => {
                        self.enter(OpenPhase::Context);
                        let cfg = self.config.as_ref().unwrap();
                        let ch = self.state.current_chapter;
                        let close = chapter_close_suggested(
                            self.state.current_chapter_word_count,
                            cfg.words_per_chapter,
                        );
                        let next = if close && ch < u32::MAX {
                            Some(chapter_file_name(ch + 1))
                        } else {
                            None
                        };
                        OpenAction::LoadContext {
                            current_chapter: chapter_file_name(ch),
                            next_chapter: next,
                        }
                    },
                }
            },
            (OpenPhase::Context, OpenEvent::Context(ctx)) => {
                let p = build_payload(
                    self.config.as_ref().unwrap(),
                    self.state,
                    &self.human_edits,
                    &self.tag,
                    self.stale,
                    ctx,
                );
                self.phase = OpenPhase::Finished;
                OpenAction::Finish(Ok(p))
            },
            (_, _) => self.fail(OpenError::UnexpectedEvent),
        }
    }
}


/// A kill request found at open, with every command succeeding: the lock's
/// removal is staged, the kill file removed, both committed and pushed, and
/// the session ends reporting the acknowledgement with nothing loaded.
pub proof fn lemma_kill_run(states: Seq<SessionOpen>, actions: Seq<OpenAction>, events: Seq<OpenEvent>)
    requires
        states.len() == 6,
        actions.len() == 6,
        events.len() == 5,
        states[0].phase == OpenPhase::KillProbe,
        events[0] == OpenEvent::KillFile(true),
        forall|j: int| 1 <= j < 5 ==> (#[trigger] events[j] matches OpenEvent::Git(o) && o is Ok),
        forall|j: int|
            0 <= j < 5 ==> open_post(#[trigger] states[j], events[j], states[j + 1], actions[j + 1]),
    ensures
        actions[1] == OpenAction::Git(GitCommand::RemoveLockIfPresent),
        actions[2] == OpenAction::Git(GitCommand::RemoveKill),
        actions[3] == OpenAction::Git(GitCommand::Commit(crate::git::CommitMessage::KillAcknowledged)),
        actions[4] == OpenAction::Git(GitCommand::PushMain),
        actions[5] matches OpenAction::Finish(Ok(p)) && killed_spec(p),
{
    reveal_with_fuel(crate::git::sequence_from, 4);
    assert(open_post(states[0], events[0], states[1], actions[1]));
    assert(open_post(states[1], events[1], states[2], actions[2]));
    let o2 = events[2]->Git_0;
    assert(open_post(states[2], events[2], states[3], actions[3]));
    assert(states[2].log@.push(o2) =~= seq![o2]);
    let o3 = events[3]->Git_0;
    assert(open_post(states[3], events[3], states[4], actions[4]));
    assert(states[3].log@.push(o3) =~= seq![o2, o3]);
    let o4 = events[4]->Git_0;
    assert(open_post(states[4], events[4], states[5], actions[5]));
    assert(states[4].log@.push(o4) =~= seq![o2, o3, o4]);
}

} // verus!
