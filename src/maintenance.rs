//! Closing a session and completing the book.
use vstd::prelude::*;
use crate::clock::local_now_text;
use crate::config::{Config, ConfigError};
use crate::git::{run_sequence, sequence_from, sequence_step, string_views, CommitMessage, GitCommand, GitError, GitOutcome, GitStep};
use crate::progress::{clamp_u32, completion_ready, reaches_ninety_percent};
use crate::text::{
    chars_of, count_words, decimal, lead_end, push_decimal, push_str, to_string,
    trim, trim_range, word_count,
};

verus! {

#[derive(Debug)]
pub struct ClosePayload {
    pub session_word_count: u32,
    pub total_word_count: u32,
    pub target_length: u32,
    pub completion_ready: bool,
    pub status: String,
}

#[derive(Debug)]
pub struct CompletePayload {
    pub status: String,
    pub total_word_count: u32,
}

/// `t` without its leading whitespace.
pub open spec fn trim_start(t: Seq<char>) -> Seq<char> {
    t.skip(lead_end(t, 0))
}

/// `t` with every space and colon turned into a dash.
pub open spec fn dashed(t: Seq<char>) -> Seq<char> {
    t.map_values(|c: char| if c == ' ' || c == ':' { '-' } else { c })
}

pub open spec fn words_u32(t: Seq<char>) -> int {
    clamp_u32(word_count(t) as int)
}

/// The summary paragraph of a session: the given summary, or a line saying
/// when the session ran and how many words it wrote.
pub open spec fn summary_line(summary: Option<Seq<char>>, stamp: Seq<char>, words: nat) -> Seq<char> {
    match summary {
        Some(s) => s,
        None => "Session "@ + stamp + " \u{2014} "@ + decimal(words) + " words written."@,
    }
}

/// The list of human-edited files, one `- path` line each.
pub open spec fn edit_lines(edits: Seq<Seq<char>>) -> Seq<char>
    decreases edits.len(),
{
    if edits.len() == 0 {
        Seq::empty()
    } else {
        edit_lines(edits.drop_last()) + "- "@ + edits.last() + "\n"@
    }
}

/// The changelog entry of a session.
pub open spec fn changelog_text(
    stamp: Seq<char>,
    words: nat,
    edits: Seq<Seq<char>>,
    summary: Option<Seq<char>>,
) -> Seq<char> {
    "# Session "@ + stamp + "\n\n**Words written:** "@ + decimal(words) + "\n"@ + (if edits.len()
        > 0 {
        "\n**Human edits:**\n"@ + edit_lines(edits)
    } else {
        Seq::empty()
    }) + match summary {
        Some(s) => "\n**Summary:**\n"@ + trim(s) + "\n"@,
        None => Seq::empty(),
    }
}

/// The full text after appending the prose of a session: a newline ends the
/// old text if needed, a blank line separates, leading whitespace of the
/// prose is dropped.
pub open spec fn appended_book(existing: Seq<char>, prose: Seq<char>) -> Seq<char> {
    let head = if existing.len() > 0 && existing.last() != '\n' {
        existing.push('\n')
    } else {
        existing
    };
    head.push('\n') + trim_start(prose)
}

/// The files written when a session closes.
pub struct CloseFiles {
    /// New text of the review document: the prose itself.
    pub review: String,
    /// New text of the summary file.
    pub summary: String,
    /// File name of the changelog entry.
    pub changelog_name: String,
    pub changelog: String,
    /// New text of the full book.
    pub book: String,
    pub session_words: u32,
    pub total_words: u32,
}

pub open spec fn text_of(t: Option<String>) -> Seq<char> {
    match t {
        Some(s) => s@,
        None => Seq::empty(),
    }
}

pub open spec fn opt_view(t: Option<&str>) -> Option<Seq<char>> {
    match t {
        Some(s) => Some(s@),
        None => None,
    }
}

pub open spec fn close_files_spec(
    f: CloseFiles,
    prose: Seq<char>,
    summary: Option<Seq<char>>,
    edits: Seq<Seq<char>>,
    stamp: Seq<char>,
    existing_summary: Seq<char>,
    existing_book: Seq<char>,
) -> bool {
    let words = words_u32(prose);
    &&& f.session_words == words
    &&& f.review@ == prose
    &&& f.summary@ == existing_summary + "\n\n"@ + trim(summary_line(summary, stamp, words as nat))
    &&& f.changelog_name@ == dashed(stamp) + ".md"@
    &&& f.changelog@ == changelog_text(stamp, words as nat, edits, summary)
    &&& f.book@ == appended_book(existing_book, prose)
    &&& f.total_words == words_u32(appended_book(existing_book, prose))
}

fn words_of(t: &Vec<char>) -> (r: u32)
    ensures
        r == words_u32(t@),
{
    let n = count_words(t, 0, t.len());
    assert(t@.subrange(0, t.len() as int) =~= t@);
    if n > u32::MAX as usize {
        u32::MAX
    } else {
        n as u32
    }
}

fn push_chars(src: &Vec<char>, lo: usize, hi: usize, out: &mut Vec<char>)
    requires
        lo <= hi <= src.len(),
    ensures
        final(out)@ == old(out)@ + src@.subrange(lo as int, hi as int),
{
    let mut i = lo;
    while i < hi
        invariant
            lo <= i <= hi <= src.len(),
            out@ == old(out)@ + src@.subrange(lo as int, i as int),
        decreases hi - i,
    {
        out.push(src[i]);
        i = i + 1;
        assert(out@ =~= old(out)@ + src@.subrange(lo as int, i as int));
    }
}

fn push_trimmed(s: &str, out: &mut Vec<char>)
    ensures
        final(out)@ == old(out)@ + trim(s@),
{
    let v = chars_of(s);
    let (a, b) = trim_range(&v, 0, v.len());
    assert(v@.subrange(0, v.len() as int) =~= v@);
    push_chars(&v, a, b, out);
}

fn lead_index(v: &Vec<char>) -> (r: usize)
    ensures
        r == lead_end(v@, 0),
        r <= v.len(),
{
    let mut a: usize = 0;
    while a < v.len() && crate::text::space(v[a])
        invariant
            a <= v.len(),
            lead_end(v@, a as int) == lead_end(v@, 0),
        decreases v.len() - a,
    {
        a = a + 1;
    }
    a
}

fn summary_file(summary: Option<&str>, stamp: &str, words: u32, existing: &str) -> (r: String)
    ensures
        r@ == existing@ + "\n\n"@ + trim(summary_line(opt_view(summary), stamp@, words as nat)),
{
    let mut line: Vec<char> = Vec::new();
    match summary {
        Some(s) => push_str(s, &mut line),
        None => {
            push_str("Session ", &mut line);
            push_str(stamp, &mut line);
            push_str(" \u{2014} ", &mut line);
            push_decimal(words as u64, &mut line);
            push_str(" words written.", &mut line);
        },
    }
    assert(line@ =~= summary_line(opt_view(summary), stamp@, words as nat));
    let line_text = to_string(&line);
    let mut sum: Vec<char> = Vec::new();
    push_str(existing, &mut sum);
    push_str("\n\n", &mut sum);
    push_trimmed(line_text.as_str(), &mut sum);
    to_string(&sum)
}

fn changelog_name(stamp: &str) -> (r: String)
    ensures
        r@ == dashed(stamp@) + ".md"@,
{
    let sv = chars_of(stamp);
    let mut name: Vec<char> = Vec::new();
    let mut i: usize = 0;
    while i < sv.len()
        invariant
            i <= sv.len(),
            sv@ == stamp@,
            name@ == dashed(sv@.take(i as int)),
        decreases sv.len() - i,
    {
        if sv[i] == ' ' || sv[i] == ':' {
            name.push('-');
        } else {
            name.push(sv[i]);
        }
        i = i + 1;
        assert(name@ =~= dashed(sv@.take(i as int)));
    }
    assert(sv@.take(sv.len() as int) =~= sv@);
    push_str(".md", &mut name);
    to_string(&name)
}

fn changelog(stamp: &str, words: u32, human_edits: &Vec<String>, summary: Option<&str>) -> (r:
    String)
    ensures
        r@ == changelog_text(stamp@, words as nat, string_views(human_edits@), opt_view(summary)),
{
    let mut log: Vec<char> = Vec::new();
    push_str("# Session ", &mut log);
    push_str(stamp, &mut log);
    push_str("\n\n**Words written:** ", &mut log);
    push_decimal(words as u64, &mut log);
    push_str("\n", &mut log);
    let mut edits: Vec<char> = Vec::new();
    let mut k: usize = 0;
    while k < human_edits.len()
        invariant
            k <= human_edits.len(),
            edits@ == edit_lines(string_views(human_edits@).take(k as int)),
        decreases human_edits.len() - k,
    {
        push_str("- ", &mut edits);
        push_str(human_edits[k].as_str(), &mut edits);
        push_str("\n", &mut edits);
        assert(string_views(human_edits@).take(k + 1).drop_last() =~= string_views(
            human_edits@,
        ).take(k as int));
        k = k + 1;
    }
    assert(string_views(human_edits@).take(human_edits.len() as int) =~= string_views(
        human_edits@,
    ));
    if human_edits.len() > 0 {
        push_str("\n**Human edits:**\n", &mut log);
        let n = edits.len();
        push_chars(&edits, 0, n, &mut log);
        assert(edits@.subrange(0, n as int) =~= edits@);
    }
    match summary {
        Some(s) => {
            push_str("\n**Summary:**\n", &mut log);
            push_trimmed(s, &mut log);
            push_str("\n", &mut log);
        },
        None => {},
    }
    assert(log@ =~= changelog_text(
        stamp@,
        words as nat,
        string_views(human_edits@),
        opt_view(summary),
    ));
    to_string(&log)
}

fn append_book(existing: &str, prose: &Vec<char>) -> (r: Vec<char>)
    ensures
        r@ == appended_book(existing@, prose@),
{
    let mut book = chars_of(existing);
    if book.len() > 0 && book[book.len() - 1] != '\n' {
        book.push('\n');
    }
    book.push('\n');
    let a = lead_index(prose);
    let n = prose.len();
    push_chars(prose, a, n, &mut book);
    assert(prose@.subrange(a as int, n as int) =~= trim_start(prose@));
    assert(book@ =~= appended_book(existing@, prose@));
    book
}

/// Compute the files of a closing session from what was there before.
pub fn close_files(
    prose: &str,
    summary: Option<&str>,
    human_edits: &Vec<String>,
    stamp: &str,
    existing_summary: &str,
    existing_book: &str,
) -> (r: CloseFiles)
    ensures
        close_files_spec(
            r,
            prose@,
            opt_view(summary),
            string_views(human_edits@),
            stamp@,
            existing_summary@,
            existing_book@,
        ),
{
    let pv = chars_of(prose);
    let words = words_of(&pv);
    let book = append_book(existing_book, &pv);
    let total = words_of(&book);
    CloseFiles {
        review: to_string(&pv),
        summary: summary_file(summary, stamp, words, existing_summary),
        changelog_name: changelog_name(stamp),
        changelog: changelog(stamp, words, human_edits, summary),
        book: to_string(&book),
        session_words: words,
        total_words: total,
    }
}


/// The commands that record a closed session: remove the lock, stage
/// everything, commit once on the working branch, push it, then
/// fast-forward the main line onto it and push that.
pub open spec fn close_commands() -> Seq<GitCommand> {
    seq![
        GitCommand::RemoveLock,
        GitCommand::StageEverything,
        GitCommand::Commit(CommitMessage::SessionProse),
        GitCommand::PushDraft,
        GitCommand::CheckoutMain,
        GitCommand::MergeFfDraft,
        GitCommand::PushMain,
    ]
}

fn close_command_list() -> (r: Vec<GitCommand>)
    ensures
        r@ == close_commands(),
{
    let r = vec![
        GitCommand::RemoveLock,
        GitCommand::StageEverything,
        GitCommand::Commit(CommitMessage::SessionProse),
        GitCommand::PushDraft,
        GitCommand::CheckoutMain,
        GitCommand::MergeFfDraft,
        GitCommand::PushMain,
    ];
    assert(r@ =~= close_commands());
    r
}

#[derive(Debug, PartialEq, Eq, Structural, Clone, Copy)]
pub enum ClosePhase {
    Inputs,
    Write,
    Publish,
    Finished,
}

pub enum CloseEvent {
    /// The configuration, and the texts of the summary file and of the full
    /// book where they exist.
    Inputs { config: Config, summary_text: Option<String>, book: Option<String> },
    InputsUnreadable(String),
    FilesWritten(Result<(), String>),
    Git(GitOutcome),
}

pub enum CloseAction {
    LoadInputs,
    /// Write the review document, summary, changelog entry and full book.
    WriteFiles(CloseFiles),
    Git(GitCommand),
    Finish(Result<ClosePayload, CloseError>),
}

#[derive(Debug)]
pub enum CloseError {
    /// No lock: there is no session to close.
    NoActiveSession,
    Config(ConfigError),
    Io(String),
    Git(GitError),
    UnexpectedEvent,
}

/// Progress of one session-close.
pub struct SessionClose {
    pub phase: ClosePhase,
    pub prose: String,
    pub summary: Option<String>,
    pub human_edits: Vec<String>,
    pub log: Vec<GitOutcome>,
    /// Local time of the close, as written in the summary and changelog.
    pub stamp: String,
    pub session_words: u32,
    pub total_words: u32,
    pub target_length: u32,
}

pub open spec fn opt_string_view(t: Option<String>) -> Option<Seq<char>> {
    match t {
        Some(s) => Some(s@),
        None => None,
    }
}

pub open spec fn close_fails(new: SessionClose, r: CloseAction, e: CloseError) -> bool {
    new.phase == ClosePhase::Finished && r == CloseAction::Finish(Err(e))
}

pub open spec fn close_post(old: SessionClose, e: CloseEvent, new: SessionClose, r: CloseAction) -> bool {
    match (old.phase, e) {
        (ClosePhase::Inputs, CloseEvent::Inputs { config, summary_text, book }) => if !config.valid() {
            close_fails(new, r, CloseError::Config(config.first_error()->0))
        } else {
            &&& new.phase == ClosePhase::Write
            &&& r matches CloseAction::WriteFiles(f)
            &&& close_files_spec(
                f,
                old.prose@,
                opt_string_view(old.summary),
                string_views(old.human_edits@),
                new.stamp@,
                text_of(summary_text),
                text_of(book),
            )
            &&& new.session_words == f.session_words
            &&& new.total_words == f.total_words
            &&& new.target_length == config.target_length
        },
        (ClosePhase::Inputs, CloseEvent::InputsUnreadable(m)) => close_fails(new, r, CloseError::Io(m)),
        (ClosePhase::Write, CloseEvent::FilesWritten(d)) => match d {
            Err(m) => close_fails(new, r, CloseError::Io(m)),
            Ok(_) => new.phase == ClosePhase::Publish && new.log@.len() == 0 && r
                == CloseAction::Git(GitCommand::RemoveLock) && new.session_words == old.session_words
                && new.total_words == old.total_words && new.target_length == old.target_length,
        },
        (ClosePhase::Publish, CloseEvent::Git(o)) => match sequence_step(
            close_commands(),
            old.log@.push(o),
        ) {
            GitStep::Run(c) => r == CloseAction::Git(c) && new.phase == ClosePhase::Publish
                && new.log@ == old.log@.push(o) && new.session_words == old.session_words
                && new.total_words == old.total_words && new.target_length == old.target_length,
            GitStep::Done(Err(g)) => close_fails(new, r, CloseError::Git(g)),
            GitStep::Done(Ok(_)) => new.phase == ClosePhase::Finished && (r matches CloseAction::Finish(
                Ok(p),
            ) && p.session_word_count == old.session_words && p.total_word_count
                == old.total_words && p.target_length == old.target_length && p.completion_ready
                == reaches_ninety_percent(old.total_words as int, old.target_length as int)
                && p.status@ == "closed"@),
        },
        _ => close_fails(new, r, CloseError::UnexpectedEvent),
    }
}

impl SessionClose {
    /// Begin closing a session with the new prose, an optional summary and
    /// the human edit set reported at open. Without a lock there is no
    /// session to close.
    pub fn start(lock_present: bool, prose: String, summary: Option<String>, human_edits: Vec<
        String,
    >) -> (r: (SessionClose, CloseAction))
        ensures
            r.0.prose == prose,
            r.0.summary == summary,
            r.0.human_edits == human_edits,
            !lock_present ==> close_fails(r.0, r.1, CloseError::NoActiveSession),
            lock_present ==> r.0.phase == ClosePhase::Inputs && r.1 == CloseAction::LoadInputs,
    {
        let s = SessionClose {
            phase: if lock_present {
                ClosePhase::Inputs
            } else {
                ClosePhase::Finished
            },
            prose,
            summary,
            human_edits,
            log: Vec::new(),
            stamp: String::new(),
            session_words: 0,
            total_words: 0,
            target_length: 0,
        };
        if lock_present {
            (s, CloseAction::LoadInputs)
        } else {
            (s, CloseAction::Finish(Err(CloseError::NoActiveSession)))
        }
    }

    fn fail(&mut self, e: CloseError) -> (r: CloseAction)
        ensures
            close_fails(*final(self), r, e),
    {
        self.phase = ClosePhase::Finished;
        CloseAction::Finish(Err(e))
    }

    pub fn step(&mut self, event: CloseEvent) -> (r: CloseAction)
        ensures
            close_post(*old(self), event, *final(self), r),
    {
        proof {
            reveal_with_fuel(sequence_from, 8);
        }
        match (self.phase, event) {
            (ClosePhase::Inputs, CloseEvent::Inputs { config, summary_text, book }) => {
                match config.validate() {
                    Err(e) => self.fail(CloseError::Config(e)),
                    Ok(_) => {
                        self.stamp = local_now_text("%Y-%m-%d %H:%M");
                        let existing_summary = match summary_text {
                            Some(t) => t,
                            None => String::new(),
                        };
                        let existing_book = match book {
                            Some(t) => t,
                            None => String::new(),
                        };
                        let files = match &self.summary {
                            Some(sm) => close_files(
                                self.prose.as_str(),
                                Some(sm.as_str()),
                                &self.human_edits,
                                self.stamp.as_str(),
                                existing_summary.as_str(),
                                existing_book.as_str(),
                            ),
                            None => close_files(
                                self.prose.as_str(),
                                None,
                                &self.human_edits,
                                self.stamp.as_str(),
                                existing_summary.as_str(),
                                existing_book.as_str(),
                            ),
                        };
                        self.session_words = files.session_words;
                        self.total_words = files.total_words;
                        self.target_length = config.target_length;
                        self.phase = ClosePhase::Write;
                        CloseAction::WriteFiles(files)
                    },
                }
            },
            (ClosePhase::Inputs, CloseEvent::InputsUnreadable(m)) => self.fail(CloseError::Io(m)),
            (ClosePhase::Write, CloseEvent::FilesWritten(d)) => match d {
                Err(m) => self.fail(CloseError::Io(m)),
                Ok(_) => {
                    self.phase = ClosePhase::Publish;
                    self.log = Vec::new();
                    CloseAction::Git(GitCommand::RemoveLock)
                },
            },
            (ClosePhase::Publish, CloseEvent::Git(o)) => {
                self.log.push(o);
                match run_sequence(close_command_list(), &self.log) {
                    GitStep::Run(c) => CloseAction::Git(c),
                    GitStep::Done(Err(g)) => self.fail(CloseError::Git(g)),
                    GitStep::Done(Ok(_)) => {
                        self.phase = ClosePhase::Finished;
                        CloseAction::Finish(
                            Ok(
                                ClosePayload {
                                    session_word_count: self.session_words,
                                    total_word_count: self.total_words,
                                    target_length: self.target_length,
                                    completion_ready: completion_ready(
                                        self.total_words,
                                        self.target_length,
                                    ),
                                    status: String::from_str("closed"),
                                },
                            ),
                        )
                    },
                }
            },
            (_, _) => self.fail(CloseError::UnexpectedEvent),
        }
    }
}

/// Number of commits among `cmds`.
pub open spec fn commit_count(cmds: Seq<GitCommand>) -> nat
    decreases cmds.len(),
{
    if cmds.len() == 0 {
        0
    } else {
        commit_count(cmds.drop_last()) + if cmds.last() is Commit {
            1nat
        } else {
            0nat
        }
    }
}

pub open spec fn all_ok(done: Seq<GitOutcome>) -> bool {
    forall|i: int| 0 <= i < done.len() ==> #[trigger] done[i] is Ok
}

pub proof fn lemma_sequence_all_ok(cmds: Seq<GitCommand>, done: Seq<GitOutcome>, k: int)
    requires
        0 <= k <= done.len() <= cmds.len(),
        all_ok(done),
    ensures
        sequence_from(cmds, done, k) == if done.len() < cmds.len() {
            GitStep::<()>::Run(cmds[done.len() as int])
        } else {
            GitStep::<()>::Done(Ok(()))
        },
    decreases cmds.len() - k,
{
    if k < done.len() {
        assert(done[k] is Ok);
        lemma_sequence_all_ok(cmds, done, k + 1);
    }
}

/// Closing right after an admitted open: the lock that open published is
/// there, so the close goes ahead; when every command succeeds its command
/// sequence runs to the end and succeeds; it commits exactly once, and the
/// lock's removal is staged before that commit, so the result is one new
/// committed state without a lock. Opening published the lock with one
/// commit of its own.
pub proof fn lemma_close_after_open(done: Seq<GitOutcome>)
    requires
        all_ok(done),
        done.len() <= close_commands().len(),
    ensures
        sequence_step(close_commands(), done) == if done.len() < close_commands().len() {
            GitStep::<()>::Run(close_commands()[done.len() as int])
        } else {
            GitStep::<()>::Done(Ok(()))
        },
        commit_count(close_commands()) == 1,
        close_commands()[0] == GitCommand::RemoveLock,
        close_commands()[2] is Commit,
        commit_count(crate::git::lock_commands()) == 1,
        crate::git::lock_commands()[0] == GitCommand::AddLock,
{
    lemma_sequence_all_ok(close_commands(), done, 0);
    reveal_with_fuel(commit_count, 8);
}


/// The commands that record completion; the lock's removal comes first when
/// a lock is still there.
pub open spec fn complete_commands(lock_present: bool) -> Seq<GitCommand> {
    let rest = seq![
        GitCommand::StageEverything,
        GitCommand::Commit(CommitMessage::BookComplete),
        GitCommand::PushMain,
    ];
    if lock_present {
        seq![GitCommand::RemoveLock] + rest
    } else {
        rest
    }
}

fn complete_command_list(lock_present: bool) -> (r: Vec<GitCommand>)
    ensures
        r@ == complete_commands(lock_present),
{
    let mut r: Vec<GitCommand> = Vec::new();
    if lock_present {
        r.push(GitCommand::RemoveLock);
    }
    r.push(GitCommand::StageEverything);
    r.push(GitCommand::Commit(CommitMessage::BookComplete));
    r.push(GitCommand::PushMain);
    assert(r@ =~= complete_commands(lock_present));
    r
}

#[derive(Debug, PartialEq, Eq, Structural, Clone, Copy)]
pub enum CompletePhase {
    Checkout,
    Marker,
    Inspect,
    Publish,
    Finished,
}

pub enum CompleteEvent {
    Git(GitOutcome),
    /// Outcome of writing the completion marker.
    MarkerWritten(Result<(), String>),
    /// Whether the lock file exists, and the full book's text if it exists.
    Inspected { lock_present: bool, book: Option<String> },
}

pub enum CompleteAction {
    Git(GitCommand),
    WriteMarker,
    Inspect,
    Finish(Result<CompletePayload, CompleteError>),
}

#[derive(Debug)]
pub enum CompleteError {
    /// The completion marker exists: the book was completed before.
    AlreadyComplete,
    Io(String),
    Git(GitError),
    UnexpectedEvent,
}

/// Progress of the one-time completion.
pub struct Completion {
    pub phase: CompletePhase,
    pub log: Vec<GitOutcome>,
    pub lock_present: bool,
    pub total_words: u32,
}

pub open spec fn complete_fails(new: Completion, r: CompleteAction, e: CompleteError) -> bool {
    new.phase == CompletePhase::Finished && r == CompleteAction::Finish(Err(e))
}

pub open spec fn complete_post(old: Completion, e: CompleteEvent, new: Completion, r: CompleteAction) -> bool {
    match (old.phase, e) {
        (CompletePhase::Checkout, CompleteEvent::Git(o)) => match o {
            Err(x) => complete_fails(
                new,
                r,
                CompleteError::Git(GitError { command: GitCommand::CheckoutMain, stderr: x }),
            ),
            Ok(_) => new.phase == CompletePhase::Marker && r == CompleteAction::WriteMarker,
        },
        (CompletePhase::Marker, CompleteEvent::MarkerWritten(d)) => match d {
            Err(m) => complete_fails(new, r, CompleteError::Io(m)),
            Ok(_) => new.phase == CompletePhase::Inspect && r == CompleteAction::Inspect,
        },
        (CompletePhase::Inspect, CompleteEvent::Inspected { lock_present, book }) => {
            &&& new.phase == CompletePhase::Publish
            &&& new.log@.len() == 0
            &&& new.lock_present == lock_present
            &&& new.total_words == (match book {
                Some(b) => words_u32(b@),
                None => 0,
            })
            &&& r == CompleteAction::Git(complete_commands(lock_present)[0])
        },
        (CompletePhase::Publish, CompleteEvent::Git(o)) => match sequence_step(
            complete_commands(old.lock_present),
            old.log@.push(o),
        ) {
            GitStep::Run(c) => r == CompleteAction::Git(c) && new.phase == CompletePhase::Publish
                && new.log@ == old.log@.push(o) && new.lock_present == old.lock_present
                && new.total_words == old.total_words,
            GitStep::Done(Err(g)) => complete_fails(new, r, CompleteError::Git(g)),
            GitStep::Done(Ok(_)) => new.phase == CompletePhase::Finished && (
            r matches CompleteAction::Finish(Ok(p)) && p.total_word_count == old.total_words
                && p.status@ == "complete"@),
        },
        _ => complete_fails(new, r, CompleteError::UnexpectedEvent),
    }
}

impl Completion {
    /// Begin completing the book; it can be done only once.
    pub fn start(already_complete: bool) -> (r: (Completion, CompleteAction))
        ensures
            already_complete ==> complete_fails(r.0, r.1, CompleteError::AlreadyComplete),
            !already_complete ==> r.0.phase == CompletePhase::Checkout && r.1
                == CompleteAction::Git(GitCommand::CheckoutMain),
    {
        let s = Completion {
            phase: if already_complete {
                CompletePhase::Finished
            } else {
                CompletePhase::Checkout
            },
            log: Vec::new(),
            lock_present: false,
            total_words: 0,
        };
        if already_complete {
            (s, CompleteAction::Finish(Err(CompleteError::AlreadyComplete)))
        } else {
            (s, CompleteAction::Git(GitCommand::CheckoutMain))
        }
    }

    fn fail(&mut self, e: CompleteError) -> (r: CompleteAction)
        ensures
            complete_fails(*final(self), r, e),
    {
        self.phase = CompletePhase::Finished;
        CompleteAction::Finish(Err(e))
    }

    pub fn step(&mut self, event: CompleteEvent) -> (r: CompleteAction)
        ensures
            complete_post(*old(self), event, *final(self), r),
    {
        proof {
            reveal_with_fuel(sequence_from, 5);
        }
        match (self.phase, event) {
            (CompletePhase::Checkout, CompleteEvent::Git(o)) => match o {
                Err(x) => self.fail(
                    CompleteError::Git(GitError { command: GitCommand::CheckoutMain, stderr: x }),
                ),
                Ok(_) => {
                    self.phase = CompletePhase::Marker;
                    CompleteAction::WriteMarker
                },
            },
            (CompletePhase::Marker, CompleteEvent::MarkerWritten(d)) => match d {
                Err(m) => self.fail(CompleteError::Io(m)),
                Ok(_) => {
                    self.phase = CompletePhase::Inspect;
                    CompleteAction::Inspect
                },
            },
            (CompletePhase::Inspect, CompleteEvent::Inspected { lock_present, book }) => {
                self.total_words = match book {
                    Some(b) => words_of(&chars_of(b.as_str())),
                    None => 0,
                };
                self.lock_present = lock_present;
                self.log = Vec::new();
                self.phase = CompletePhase::Publish;
                let cmds = complete_command_list(lock_present);
                CompleteAction::Git(cmds[0].duplicate())
            },
            (CompletePhase::Publish, CompleteEvent::Git(o)) => {
                self.log.push(o);
                match run_sequence(complete_command_list(self.lock_present), &self.log) {
                    GitStep::Run(c) => CompleteAction::Git(c),
                    GitStep::Done(Err(g)) => self.fail(CompleteError::Git(g)),
                    GitStep::Done(Ok(_)) => {
                        self.phase = CompletePhase::Finished;
                        CompleteAction::Finish(
                            Ok(
                                CompletePayload {
                                    status: String::from_str("complete"),
                                    total_word_count: self.total_words,
                                },
                            ),
                        )
                    },
                }
            },
            (_, _) => self.fail(CompleteError::UnexpectedEvent),
        }
    }
}


proof fn lemma_publish_run(
    states: Seq<SessionClose>,
    actions: Seq<CloseAction>,
    events: Seq<CloseEvent>,
    i: int,
)
    requires
        2 <= i <= 9,
        states.len() == 10,
        actions.len() == 10,
        events.len() == 9,
        forall|j: int| 2 <= j < 9 ==> (#[trigger] events[j] matches CloseEvent::Git(o) && o is Ok),
        forall|j: int|
            0 <= j < 9 ==> close_post(#[trigger] states[j], events[j], states[j + 1], actions[j + 1]),
        i < 9 ==> states[i].phase == ClosePhase::Publish,
        i < 9 ==> states[i].log@.len() == i - 2,
        i < 9 ==> all_ok(states[i].log@),
        i < 9 ==> actions[i] == CloseAction::Git(close_commands()[i - 2]),
        i == 9 ==> (actions[9] matches CloseAction::Finish(r) && r is Ok),
    ensures
        forall|j: int| i <= j < 9 ==> #[trigger] actions[j] == CloseAction::Git(close_commands()[j - 2]),
        actions[9] matches CloseAction::Finish(r) && r is Ok,
    decreases 9 - i,
{
    if i < 9 {
        let o = events[i]->Git_0;
        let log = states[i].log@.push(o);
        assert(all_ok(log)) by {
            assert forall|k: int| 0 <= k < log.len() implies #[trigger] log[k] is Ok by {
                if k < states[i].log@.len() {
                    assert(log[k] == states[i].log@[k]);
                }
            }
        }
        lemma_sequence_all_ok(close_commands(), log, 0);
        assert(close_post(states[i], events[i], states[i + 1], actions[i + 1]));
        lemma_publish_run(states, actions, events, i + 1);
    }
}

/// A close that was started with the lock present (which is how an admitted
/// open leaves the repository), given valid settings and with every action
/// succeeding, writes its files, then issues exactly the close commands, in
/// order, and ends in success: one commit, after the lock's removal.
pub proof fn lemma_close_run(
    states: Seq<SessionClose>,
    actions: Seq<CloseAction>,
    events: Seq<CloseEvent>,
)
    requires
        states.len() == 10,
        actions.len() == 10,
        events.len() == 9,
        states[0].phase == ClosePhase::Inputs,
        events[0] matches CloseEvent::Inputs { config, .. } && config.valid(),
        events[1] == CloseEvent::FilesWritten(Ok(())),
        forall|j: int| 2 <= j < 9 ==> (#[trigger] events[j] matches CloseEvent::Git(o) && o is Ok),
        forall|j: int|
            0 <= j < 9 ==> close_post(#[trigger] states[j], events[j], states[j + 1], actions[j + 1]),
    ensures
        actions[1] is WriteFiles,
        forall|j: int| 2 <= j < 9 ==> #[trigger] actions[j] == CloseAction::Git(close_commands()[j - 2]),
        actions[9] matches CloseAction::Finish(r) && r is Ok,
        commit_count(close_commands()) == 1,
        close_commands()[0] == GitCommand::RemoveLock,
{
    assert(close_post(states[0], events[0], states[1], actions[1]));
    assert(close_post(states[1], events[1], states[2], actions[2]));
    assert(all_ok(states[2].log@));
    lemma_publish_run(states, actions, events, 2);
    reveal_with_fuel(commit_count, 8);
}

} // verus!
