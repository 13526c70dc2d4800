//! Version-control operations, as steps. Each operation is a function from
//! the outcomes of the commands it has issued so far (standard output on
//! success, error output on failure) to the next command to run, or to its
//! result. The caller runs each command and hands its outcome back.
use vstd::prelude::*;
use crate::text::{chars_of, keep_nonempty, ranges_within, slices, string_of, trim, trim_range};

verus! {

/// Fixed commit messages.
#[derive(Debug, PartialEq, Eq, Structural, Clone, Copy)]
pub enum CommitMessage {
    HumanUpdates,
    OpenLock,
    KillAcknowledged,
    SessionProse,
    BookComplete,
}

/// The version-control commands this library issues.
#[derive(Debug)]
pub enum GitCommand {
    FetchOrigin,
    CheckoutMain,
    MergeFfOriginMain,
    DiffNamesVsOrigin,
    StatusShort,
    AddAll,
    StageEverything,
    StagedQuiet,
    Commit(CommitMessage),
    Tag(String),
    PushMain,
    PushMainWithTags,
    PushDraft,
    CheckoutDraft,
    CreateDraft,
    RebaseOntoMain,
    MergeFfDraft,
    AddLock,
    RemoveLockIfPresent,
    RemoveLock,
    RemoveKill,
}

/// Outcome of one command: its standard output, or its error output.
pub type GitOutcome = Result<String, String>;

/// A command that failed, with its error output.
#[derive(Debug)]
pub struct GitError {
    pub command: GitCommand,
    pub stderr: String,
}

/// What an operation needs next.
#[derive(Debug)]
pub enum GitStep<T> {
    Run(GitCommand),
    Done(Result<T, GitError>),
}

impl GitCommand {
    pub fn duplicate(&self) -> (r: GitCommand)
        ensures
            r == *self,
    {
        match self {
            GitCommand::FetchOrigin => GitCommand::FetchOrigin,
            GitCommand::CheckoutMain => GitCommand::CheckoutMain,
            GitCommand::MergeFfOriginMain => GitCommand::MergeFfOriginMain,
            GitCommand::DiffNamesVsOrigin => GitCommand::DiffNamesVsOrigin,
            GitCommand::StatusShort => GitCommand::StatusShort,
            GitCommand::AddAll => GitCommand::AddAll,
            GitCommand::StageEverything => GitCommand::StageEverything,
            GitCommand::StagedQuiet => GitCommand::StagedQuiet,
            GitCommand::Commit(m) => GitCommand::Commit(*m),
            GitCommand::Tag(t) => GitCommand::Tag(t.clone()),
            GitCommand::PushMain => GitCommand::PushMain,
            GitCommand::PushMainWithTags => GitCommand::PushMainWithTags,
            GitCommand::PushDraft => GitCommand::PushDraft,
            GitCommand::CheckoutDraft => GitCommand::CheckoutDraft,
            GitCommand::CreateDraft => GitCommand::CreateDraft,
            GitCommand::RebaseOntoMain => GitCommand::RebaseOntoMain,
            GitCommand::MergeFfDraft => GitCommand::MergeFfDraft,
            GitCommand::AddLock => GitCommand::AddLock,
            GitCommand::RemoveLockIfPresent => GitCommand::RemoveLockIfPresent,
            GitCommand::RemoveLock => GitCommand::RemoveLock,
            GitCommand::RemoveKill => GitCommand::RemoveKill,
        }
    }
}

/// The error for command `c` failing with `stderr`.
pub fn git_error(c: &GitCommand, stderr: &String) -> (r: GitError)
    ensures
        r.command == *c,
        r.stderr == *stderr,
{
    GitError { command: c.duplicate(), stderr: stderr.clone() }
}

/// Step of a fixed command sequence that stops at the first failure.
pub open spec fn sequence_step(cmds: Seq<GitCommand>, done: Seq<GitOutcome>) -> GitStep<()> {
    sequence_from(cmds, done, 0)
}

pub open spec fn sequence_from(cmds: Seq<GitCommand>, done: Seq<GitOutcome>, k: int) -> GitStep<()>
    decreases cmds.len() - k,
{
    if k < 0 || k >= cmds.len() {
        GitStep::Done(Ok(()))
    } else if k >= done.len() {
        GitStep::Run(cmds[k])
    } else {
        match done[k] {
            Err(e) => GitStep::Done(Err(GitError { command: cmds[k], stderr: e })),
            Ok(_) => sequence_from(cmds, done, k + 1),
        }
    }
}

/// Run `cmds` in order, stopping at the first that fails.
pub fn run_sequence(cmds: Vec<GitCommand>, done: &Vec<GitOutcome>) -> (r: GitStep<()>)
    ensures
        r == sequence_step(cmds@, done@),
{
    let mut k: usize = 0;
    while k < cmds.len()
        invariant
            k <= cmds.len(),
            sequence_from(cmds@, done@, k as int) == sequence_from(cmds@, done@, 0),
        decreases cmds.len() - k,
    {
        if k >= done.len() {
            return GitStep::Run(cmds[k].duplicate());
        }
        match &done[k] {
            Err(e) => {
                return GitStep::Done(Err(git_error(&cmds[k], e)));
            },
            Ok(_) => {},
        }
        k = k + 1;
    }
    GitStep::Done(Ok(()))
}

pub open spec fn preflight_commands() -> Seq<GitCommand> {
    seq![GitCommand::FetchOrigin, GitCommand::CheckoutMain]
}

/// Fetch the remote and switch to the main line, without merging.
pub fn preflight_fetch_and_checkout(done: &Vec<GitOutcome>) -> (r: GitStep<()>)
    ensures
        r == sequence_step(preflight_commands(), done@),
{
    let cmds = vec![GitCommand::FetchOrigin, GitCommand::CheckoutMain];
    assert(cmds@ =~= preflight_commands());
    run_sequence(cmds, done)
}

/// Fast-forward the main line onto the remote tip; anything else fails.
pub fn merge_ff_origin_main(done: &Vec<GitOutcome>) -> (r: GitStep<()>)
    ensures
        r == sequence_step(seq![GitCommand::MergeFfOriginMain], done@),
{
    let cmds = vec![GitCommand::MergeFfOriginMain];
    assert(cmds@ =~= seq![GitCommand::MergeFfOriginMain]);
    run_sequence(cmds, done)
}

/// Push the main line together with all tags.
pub fn push_tags(done: &Vec<GitOutcome>) -> (r: GitStep<()>)
    ensures
        r == sequence_step(seq![GitCommand::PushMainWithTags], done@),
{
    let cmds = vec![GitCommand::PushMainWithTags];
    assert(cmds@ =~= seq![GitCommand::PushMainWithTags]);
    run_sequence(cmds, done)
}

pub open spec fn kill_commands() -> Seq<GitCommand> {
    seq![GitCommand::RemoveKill, GitCommand::Commit(CommitMessage::KillAcknowledged), GitCommand::PushMain]
}

/// Remove the kill request from history: remove, commit, push.
pub fn delete_kill_file(done: &Vec<GitOutcome>) -> (r: GitStep<()>)
    ensures
        r == sequence_step(kill_commands(), done@),
{
    let cmds = vec![
        GitCommand::RemoveKill,
        GitCommand::Commit(CommitMessage::KillAcknowledged),
        GitCommand::PushMain,
    ];
    assert(cmds@ =~= kill_commands());
    run_sequence(cmds, done)
}

pub open spec fn lock_commands() -> Seq<GitCommand> {
    seq![GitCommand::AddLock, GitCommand::Commit(CommitMessage::OpenLock), GitCommand::PushMain]
}

/// Publish the lock file just written with the current time, so that other
/// collaborators see the session at once: add, commit, push.
pub fn create_lock(done: &Vec<GitOutcome>) -> (r: GitStep<()>)
    ensures
        r == sequence_step(lock_commands(), done@),
{
    let cmds = vec![
        GitCommand::AddLock,
        GitCommand::Commit(CommitMessage::OpenLock),
        GitCommand::PushMain,
    ];
    assert(cmds@ =~= lock_commands());
    run_sequence(cmds, done)
}


pub open spec fn string_views(s: Seq<String>) -> Seq<Seq<char>> {
    s.map_values(|x: String| x@)
}

/// Index of the first newline at or after `j`, or -1.
pub open spec fn find_newline(t: Seq<char>, j: int) -> int
    decreases t.len() - j,
{
    if j < 0 || j >= t.len() {
        -1
    } else if t[j] == '\n' {
        j
    } else {
        find_newline(t, j + 1)
    }
}

/// The path a line names once its first `skip` characters are dropped and
/// it is trimmed; nothing for a shorter or blank line.
pub open spec fn line_entry(line: Seq<char>, skip: int) -> Seq<Seq<char>> {
    if line.len() >= skip {
        keep_nonempty(trim(line.skip(skip)))
    } else {
        Seq::empty()
    }
}

/// The entries of every line of `t`, in order.
pub open spec fn line_entries(t: Seq<char>, skip: int) -> Seq<Seq<char>>
    decreases t.len(),
{
    let k = find_newline(t, 0);
    if 0 <= k < t.len() {
        line_entry(t.take(k), skip) + line_entries(t.skip(k + 1), skip)
    } else {
        line_entry(t, skip)
    }
}

fn push_entry(v: &Vec<char>, lo: usize, hi: usize, skip: usize, out: &mut Vec<(usize, usize)>)
    requires
        lo <= hi <= v.len(),
        ranges_within(old(out)@, v.len() as int),
    ensures
        ranges_within(final(out)@, v.len() as int),
        slices(v@, final(out)@) == slices(v@, old(out)@) + line_entry(
            v@.subrange(lo as int, hi as int),
            skip as int,
        ),
{
    let ghost line = v@.subrange(lo as int, hi as int);
    if hi - lo >= skip {
        let (a, b) = trim_range(v, lo + skip, hi);
        assert(line.skip(skip as int) =~= v@.subrange(lo + skip, hi as int));
        let ghost before = out@;
        if a < b {
            out.push((a, b));
            assert(slices(v@, out@) =~= slices(v@, before).push(v@.subrange(a as int, b as int)));
            assert(ranges_within(out@, v.len() as int)) by {
                assert forall|k: int| 0 <= k < out@.len() implies (#[trigger] out@[k]).0
                    <= out@[k].1 && out@[k].1 <= v.len() by {
                    if k < before.len() {
                        assert(out@[k] == before[k]);
                    }
                }
            }
        } else {
            assert(slices(v@, out@) =~= slices(v@, before) + Seq::<Seq<char>>::empty());
        }
    } else {
        assert(slices(v@, out@) =~= slices(v@, out@) + Seq::<Seq<char>>::empty());
    }
}

/// The entries of the lines of `v`, as index ranges.
pub fn scan_lines(v: &Vec<char>, skip: usize) -> (r: Vec<(usize, usize)>)
    ensures
        slices(v@, r@) == line_entries(v@, skip as int),
        ranges_within(r@, v.len() as int),
{
    let n = v.len();
    let mut out: Vec<(usize, usize)> = Vec::new();
    let mut st: usize = 0;
    let mut i: usize = 0;
    assert(v@.skip(0) =~= v@);
    assert(slices(v@, out@) + line_entries(v@, skip as int) =~= line_entries(v@, skip as int));
    while i < n
        invariant
            n == v.len(),
            st <= i <= n,
            slices(v@, out@) + line_entries(v@.skip(st as int), skip as int) == line_entries(
                v@,
                skip as int,
            ),
            find_newline(v@.skip(st as int), i - st) == find_newline(v@.skip(st as int), 0),
            ranges_within(out@, n as int),
        decreases n - i,
    {
        let ghost s = v@.skip(st as int);
        if v[i] == '\n' {
            let ghost old_out = out@;
            push_entry(v, st, i, skip, &mut out);
            proof {
                let k = i - st;
                assert(find_newline(s, k) == k);
                assert(s.take(k) =~= v@.subrange(st as int, i as int));
                assert(s.skip(k + 1) =~= v@.skip(i + 1));
                assert(slices(v@, out@) + line_entries(v@.skip(i + 1), skip as int) =~= slices(
                    v@,
                    old_out,
                ) + line_entries(s, skip as int));
            }
            st = i + 1;
        }
        i = i + 1;
    }
    let ghost old_out = out@;
    push_entry(v, st, n, skip, &mut out);
    proof {
        let s = v@.skip(st as int);
        assert(s =~= v@.subrange(st as int, n as int));
        assert(find_newline(s, i - st) == -1);
    }
    assert(slices(v@, out@) =~= slices(v@, old_out) + line_entries(v@.skip(st as int), skip as int));
    out
}

/// The pieces `rs` of `v` as strings.
pub fn strings_of(v: &Vec<char>, rs: &Vec<(usize, usize)>) -> (r: Vec<String>)
    requires
        ranges_within(rs@, v.len() as int),
    ensures
        string_views(r@) == slices(v@, rs@),
{
    let mut r: Vec<String> = Vec::new();
    let mut k: usize = 0;
    while k < rs.len()
        invariant
            k <= rs.len(),
            ranges_within(rs@, v.len() as int),
            string_views(r@) == slices(v@, rs@).take(k as int),
        decreases rs.len() - k,
    {
        let (a, b) = rs[k];
        let ghost before = r@;
        r.push(string_of(v, a, b));
        assert(string_views(r@) =~= string_views(before).push(v@.subrange(a as int, b as int)));
        assert(slices(v@, rs@).take(k + 1) =~= slices(v@, rs@).take(k as int).push(
            v@.subrange(a as int, b as int),
        ));
        k = k + 1;
    }
    assert(slices(v@, rs@).take(rs.len() as int) =~= slices(v@, rs@));
    r
}

/// Paths in short-status output: each line's text after its two status
/// columns and the space, trimmed; blank entries dropped.
pub open spec fn status_paths(out: Seq<char>) -> Seq<Seq<char>> {
    line_entries(out, 3)
}

/// Paths in name-only diff output: each line trimmed; blank lines dropped.
pub open spec fn diff_paths(out: Seq<char>) -> Seq<Seq<char>> {
    line_entries(out, 0)
}

/// Paths changed in the working tree. A failed status is an error.
pub fn collect_modified_files(done: &Vec<GitOutcome>) -> (r: GitStep<Vec<String>>)
    ensures
        match r {
            GitStep::Run(c) => done@.len() == 0 && c == GitCommand::StatusShort,
            GitStep::Done(Ok(files)) => done@.len() > 0 && done@[0] is Ok && string_views(files@)
                == status_paths(done@[0]->Ok_0@),
            GitStep::Done(Err(e)) => done@.len() > 0 && done@[0] == Err::<String, String>(e.stderr)
                && e.command == GitCommand::StatusShort,
        },
{
    if done.len() == 0 {
        return GitStep::Run(GitCommand::StatusShort);
    }
    match &done[0] {
        Ok(out) => {
            let v = chars_of(out.as_str());
            let rs = scan_lines(&v, 3);
            GitStep::Done(Ok(strings_of(&v, &rs)))
        },
        Err(e) => GitStep::Done(Err(git_error(&GitCommand::StatusShort, e))),
    }
}

/// Paths that differ between the working tree and the remote tip. A failed
/// diff (no remote tip yet) counts as no difference.
pub fn collect_diffs_vs_remote(done: &Vec<GitOutcome>) -> (r: GitStep<Vec<String>>)
    ensures
        match r {
            GitStep::Run(c) => done@.len() == 0 && c == GitCommand::DiffNamesVsOrigin,
            GitStep::Done(Ok(files)) => done@.len() > 0 && (match done@[0] {
                Ok(out) => string_views(files@) == diff_paths(out@),
                Err(_) => files@.len() == 0,
            }),
            GitStep::Done(Err(_)) => false,
        },
{
    if done.len() == 0 {
        return GitStep::Run(GitCommand::DiffNamesVsOrigin);
    }
    match &done[0] {
        Ok(out) => {
            let v = chars_of(out.as_str());
            let rs = scan_lines(&v, 0);
            GitStep::Done(Ok(strings_of(&v, &rs)))
        },
        Err(_) => GitStep::Done(Ok(Vec::new())),
    }
}

/// `acc` followed by each path of `more` that it does not hold yet.
pub open spec fn union_paths(acc: Seq<Seq<char>>, more: Seq<Seq<char>>) -> Seq<Seq<char>>
    decreases more.len(),
{
    if more.len() == 0 {
        acc
    } else {
        let r = union_paths(acc, more.drop_last());
        if r.contains(more.last()) {
            r
        } else {
            r.push(more.last())
        }
    }
}

/// The human edit set: the working-tree changes, then each remote
/// difference not already listed.
pub fn merge_human_edits(local: &Vec<String>, remote: &Vec<String>) -> (r: Vec<String>)
    ensures
        string_views(r@) == union_paths(string_views(local@), string_views(remote@)),
{
    let mut r: Vec<String> = Vec::new();
    let mut k: usize = 0;
    while k < local.len()
        invariant
            k <= local.len(),
            string_views(r@) == string_views(local@).take(k as int),
        decreases local.len() - k,
    {
        let ghost before = r@;
        r.push(local[k].clone());
        assert(string_views(r@) =~= string_views(before).push(local@[k as int]@));
        assert(string_views(local@).take(k + 1) =~= string_views(local@).take(k as int).push(
            local@[k as int]@,
        ));
        k = k + 1;
    }
    assert(string_views(local@).take(local.len() as int) =~= string_views(local@));
    let mut m: usize = 0;
    while m < remote.len()
        invariant
            m <= remote.len(),
            string_views(r@) == union_paths(
                string_views(local@),
                string_views(remote@).take(m as int),
            ),
        decreases remote.len() - m,
    {
        let ghost more = string_views(remote@).take(m + 1);
        assert(more.drop_last() =~= string_views(remote@).take(m as int));
        assert(more.last() == remote@[m as int]@);
        let mut found = false;
        let mut j: usize = 0;
        while j < r.len()
            invariant
                j <= r.len(),
                m < remote.len(),
                found <==> exists|i: int| 0 <= i < j && r@[i]@ == remote@[m as int]@,
            decreases r.len() - j,
        {
            if r[j] == remote[m] {
                found = true;
            }
            j = j + 1;
        }
        let ghost before = r@;
        proof {
            if found {
                let i = choose|i: int| 0 <= i < r.len() && r@[i]@ == remote@[m as int]@;
                assert(string_views(before)[i] == more.last());
            } else {
                assert forall|i: int| 0 <= i < string_views(before).len() implies string_views(
                    before,
                )[i] != more.last() by {
                    assert(string_views(before)[i] == before[i]@);
                }
            }
        }
        if !found {
            r.push(remote[m].clone());
            assert(string_views(r@) =~= string_views(before).push(more.last()));
        }
        m = m + 1;
    }
    assert(string_views(remote@).take(remote.len() as int) =~= string_views(remote@));
    r
}

/// Steps of committing the human edit set: nothing to do for an empty set;
/// else stage everything, and commit only when staging produced a change.
/// The result says whether a commit was made.
pub open spec fn commit_edits_step(has_files: bool, done: Seq<GitOutcome>) -> GitStep<bool> {
    if !has_files {
        GitStep::Done(Ok(false))
    } else if done.len() == 0 {
        GitStep::Run(GitCommand::AddAll)
    } else if done[0] is Err {
        GitStep::Done(Err(GitError { command: GitCommand::AddAll, stderr: done[0]->Err_0 }))
    } else if done.len() == 1 {
        GitStep::Run(GitCommand::StagedQuiet)
    } else if done[1] is Ok {
        GitStep::Done(Ok(false))
    } else if done.len() == 2 {
        GitStep::Run(GitCommand::Commit(CommitMessage::HumanUpdates))
    } else if done[2] is Err {
        GitStep::Done(
            Err(
                GitError {
                    command: GitCommand::Commit(CommitMessage::HumanUpdates),
                    stderr: done[2]->Err_0,
                },
            ),
        )
    } else {
        GitStep::Done(Ok(true))
    }
}

pub fn commit_human_edits(files: &Vec<String>, done: &Vec<GitOutcome>) -> (r: GitStep<bool>)
    ensures
        r == commit_edits_step(files.len() > 0, done@),
{
    if files.len() == 0 {
        return GitStep::Done(Ok(false));
    }
    if done.len() == 0 {
        return GitStep::Run(GitCommand::AddAll);
    }
    if let Err(e) = &done[0] {
        return GitStep::Done(Err(git_error(&GitCommand::AddAll, e)));
    }
    if done.len() == 1 {
        return GitStep::Run(GitCommand::StagedQuiet);
    }
    if done[1].is_ok() {
        return GitStep::Done(Ok(false));
    }
    if done.len() == 2 {
        return GitStep::Run(GitCommand::Commit(CommitMessage::HumanUpdates));
    }
    if let Err(e) = &done[2] {
        return GitStep::Done(Err(git_error(&GitCommand::Commit(CommitMessage::HumanUpdates), e)));
    }
    GitStep::Done(Ok(true))
}

/// Steps of switching to the working branch: check it out, or create it
/// when that fails, then rebase it onto the main line.
pub open spec fn draft_step(done: Seq<GitOutcome>) -> GitStep<()> {
    if done.len() == 0 {
        GitStep::Run(GitCommand::CheckoutDraft)
    } else if done[0] is Ok {
        if done.len() == 1 {
            GitStep::Run(GitCommand::RebaseOntoMain)
        } else if done[1] is Err {
            GitStep::Done(Err(GitError { command: GitCommand::RebaseOntoMain, stderr: done[1]->Err_0 }))
        } else {
            GitStep::Done(Ok(()))
        }
    } else if done.len() == 1 {
        GitStep::Run(GitCommand::CreateDraft)
    } else if done[1] is Err {
        GitStep::Done(Err(GitError { command: GitCommand::CreateDraft, stderr: done[1]->Err_0 }))
    } else if done.len() == 2 {
        GitStep::Run(GitCommand::RebaseOntoMain)
    } else if done[2] is Err {
        GitStep::Done(Err(GitError { command: GitCommand::RebaseOntoMain, stderr: done[2]->Err_0 }))
    } else {
        GitStep::Done(Ok(()))
    }
}

pub fn setup_draft_branch(done: &Vec<GitOutcome>) -> (r: GitStep<()>)
    ensures
        r == draft_step(done@),
{
    if done.len() == 0 {
        return GitStep::Run(GitCommand::CheckoutDraft);
    }
    if done[0].is_ok() {
        if done.len() == 1 {
            return GitStep::Run(GitCommand::RebaseOntoMain);
        }
        if let Err(e) = &done[1] {
            return GitStep::Done(Err(git_error(&GitCommand::RebaseOntoMain, e)));
        }
        return GitStep::Done(Ok(()));
    }
    if done.len() == 1 {
        return GitStep::Run(GitCommand::CreateDraft);
    }
    if let Err(e) = &done[1] {
        return GitStep::Done(Err(git_error(&GitCommand::CreateDraft, e)));
    }
    if done.len() == 2 {
        return GitStep::Run(GitCommand::RebaseOntoMain);
    }
    if let Err(e) = &done[2] {
        return GitStep::Done(Err(git_error(&GitCommand::RebaseOntoMain, e)));
    }
    GitStep::Done(Ok(()))
}

/// Tag the current state. A failure (the tag exists after a retried
/// session-open) is tolerated.
pub fn create_snapshot_tag(tag: &String, done: &Vec<GitOutcome>) -> (r: GitStep<()>)
    ensures
        done@.len() == 0 ==> r == GitStep::<()>::Run(GitCommand::Tag(*tag)),
        done@.len() > 0 ==> r == GitStep::<()>::Done(Ok(())),
{
    if done.len() == 0 {
        GitStep::Run(GitCommand::Tag(tag.clone()))
    } else {
        GitStep::Done(Ok(()))
    }
}

/// The text of a commit message.
pub open spec fn commit_text(m: CommitMessage) -> Seq<char> {
    match m {
        CommitMessage::HumanUpdates => "chore: human updates"@,
        CommitMessage::OpenLock => "chore: open session lock"@,
        CommitMessage::KillAcknowledged => "chore: acknowledge kill request"@,
        CommitMessage::SessionProse => "session: write prose"@,
        CommitMessage::BookComplete => "book: complete"@,
    }
}

/// The arguments passed to the version-control binary for a command.
pub open spec fn command_args(c: GitCommand) -> Seq<Seq<char>> {
    match c {
        GitCommand::FetchOrigin => seq!["fetch"@, "origin"@],
        GitCommand::CheckoutMain => seq!["checkout"@, "main"@],
        GitCommand::MergeFfOriginMain => seq!["merge"@, "--ff-only"@, "origin/main"@],
        GitCommand::DiffNamesVsOrigin => seq!["diff"@, "origin/main"@, "--name-only"@],
        GitCommand::StatusShort => seq!["status"@, "--short"@],
        GitCommand::AddAll => seq!["add"@, "."@],
        GitCommand::StageEverything => seq!["add"@, "-A"@],
        GitCommand::StagedQuiet => seq!["diff"@, "--cached"@, "--quiet"@],
        GitCommand::PushMain => seq!["push"@, "origin"@, "main"@],
        GitCommand::PushMainWithTags => seq!["push"@, "origin"@, "main"@, "--tags"@],
        GitCommand::PushDraft => seq!["push"@, "origin"@, "draft"@],
        GitCommand::CheckoutDraft => seq!["checkout"@, "draft"@],
        GitCommand::CreateDraft => seq!["checkout"@, "-b"@, "draft"@],
        GitCommand::RebaseOntoMain => seq!["rebase"@, "main"@],
        GitCommand::MergeFfDraft => seq!["merge"@, "--ff-only"@, "draft"@],
        GitCommand::AddLock => seq!["add"@, ".ink-running"@],
        GitCommand::RemoveLockIfPresent => seq!["rm"@, "--ignore-unmatch"@, ".ink-running"@],
        GitCommand::RemoveLock => seq!["rm"@, "-f"@, ".ink-running"@],
        GitCommand::RemoveKill => seq!["rm"@, "-f"@, ".ink-kill"@],
        GitCommand::Commit(m) => seq!["commit"@, "-m"@, commit_text(m)],
        GitCommand::Tag(t) => seq!["tag"@, t@],
    }
}

fn owned(s: &str) -> (r: String)
    ensures
        r@ == s@,
{
    String::from_str(s)
}

impl CommitMessage {
    pub fn text(&self) -> (r: String)
        ensures
            r@ == commit_text(*self),
    {
        match self {
            CommitMessage::HumanUpdates => owned("chore: human updates"),
            CommitMessage::OpenLock => owned("chore: open session lock"),
            CommitMessage::KillAcknowledged => owned("chore: acknowledge kill request"),
            CommitMessage::SessionProse => owned("session: write prose"),
            CommitMessage::BookComplete => owned("book: complete"),
        }
    }
}

impl GitCommand {
    pub fn args(&self) -> (r: Vec<String>)
        ensures
            string_views(r@) == command_args(*self),
    {
        let r = match self {
            GitCommand::FetchOrigin => vec![owned("fetch"), owned("origin")],
            GitCommand::CheckoutMain => vec![owned("checkout"), owned("main")],
            GitCommand::MergeFfOriginMain => vec![owned("merge"), owned("--ff-only"), owned("origin/main")],
            GitCommand::DiffNamesVsOrigin => vec![owned("diff"), owned("origin/main"), owned("--name-only")],
            GitCommand::StatusShort => vec![owned("status"), owned("--short")],
            GitCommand::AddAll => vec![owned("add"), owned(".")],
            GitCommand::StageEverything => vec![owned("add"), owned("-A")],
            GitCommand::StagedQuiet => vec![owned("diff"), owned("--cached"), owned("--quiet")],
            GitCommand::PushMain => vec![owned("push"), owned("origin"), owned("main")],
            GitCommand::PushMainWithTags => vec![owned("push"), owned("origin"), owned("main"), owned("--tags")],
            GitCommand::PushDraft => vec![owned("push"), owned("origin"), owned("draft")],
            GitCommand::CheckoutDraft => vec![owned("checkout"), owned("draft")],
            GitCommand::CreateDraft => vec![owned("checkout"), owned("-b"), owned("draft")],
            GitCommand::RebaseOntoMain => vec![owned("rebase"), owned("main")],
            GitCommand::MergeFfDraft => vec![owned("merge"), owned("--ff-only"), owned("draft")],
            GitCommand::AddLock => vec![owned("add"), owned(".ink-running")],
            GitCommand::RemoveLockIfPresent => vec![owned("rm"), owned("--ignore-unmatch"), owned(".ink-running")],
            GitCommand::RemoveLock => vec![owned("rm"), owned("-f"), owned(".ink-running")],
            GitCommand::RemoveKill => vec![owned("rm"), owned("-f"), owned(".ink-kill")],
            GitCommand::Commit(m) => vec![owned("commit"), owned("-m"), m.text()],
            GitCommand::Tag(t) => vec![owned("tag"), t.clone()],
        };
        assert(string_views(r@) =~= command_args(*self));
        r
    }
}

} // verus!
