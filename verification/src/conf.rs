//! The configuration of one campaign: the resolved command line of the
//! target, the places it reads and writes, and the log that its workers
//! share behind a lock.

use crate::layout::{
    crash_file_path, crash_path, default_input_file, default_input_path,
    lemma_crash_paths_distinct, stdin_file, stdin_path, tracer_file, tracer_path,
};
use crate::log::{lemma_issued_is_consecutive, Log, LogView};
use std::sync::Arc;
use std::time::SystemTime;
use vstd::prelude::*;
use vstd::rwlock::*;
use vstd::string::*;

verus! {

/// The token of a command template that stands for the input file.
pub open spec fn placeholder() -> Seq<char> {
    seq!['@', '@']
}

/// What a template of borrowed tokens says, token by token.
pub open spec fn template_text(template: Seq<&str>) -> Seq<Seq<char>> {
    Seq::new(template.len(), |i: int| template[i]@)
}

/// What a command of owned arguments says, argument by argument.
pub open spec fn args_text(args: Seq<String>) -> Seq<Seq<char>> {
    Seq::new(args.len(), |i: int| args[i]@)
}

/// The target takes its input from a named file: some token of the
/// template is the placeholder.
pub open spec fn names_input_file(template: Seq<Seq<char>>) -> bool {
    exists|i: int| 0 <= i < template.len() && #[trigger] template[i] == placeholder()
}

/// The file that the harness fills before each run: the given one when the
/// template names an input file, else the scratch file behind the target's
/// standard input.
pub open spec fn resolved_input(
    template: Seq<Seq<char>>,
    output_dir: Seq<char>,
    input_path: Seq<char>,
) -> Seq<char> {
    if names_input_file(template) {
        input_path
    } else {
        stdin_path(output_dir)
    }
}

/// The template with every placeholder replaced by `input`.
pub open spec fn substituted(template: Seq<Seq<char>>, input: Seq<char>) -> Seq<Seq<char>> {
    Seq::new(
        template.len(),
        |i: int|
            if template[i] == placeholder() {
                input
            } else {
                template[i]
            },
    )
}

/// The command that a worker runs: the tracer, then the substituted
/// template.
pub open spec fn command_line(
    template: Seq<Seq<char>>,
    input: Seq<char>,
    path_base: Seq<char>,
) -> Seq<Seq<char>> {
    seq![tracer_path(path_base)] + substituted(template, input)
}

/// The crash files written while `reports` were reported to a log that
/// stood at `start`, in the order in which they were written.
pub open spec fn crash_files(output_dir: Seq<char>, start: LogView, reports: Seq<u64>) -> Seq<
    Seq<char>,
> {
    Seq::new(
        start.issued(reports).len(),
        |j: int| crash_path(output_dir, start.issued(reports)[j]),
    )
}

/// A run of reports writes one file for each signature that it adds to the
/// log, and no file twice: the crash files of a campaign are as many as its
/// unique crashes.
pub proof fn lemma_one_file_per_unique_crash(
    output_dir: Seq<char>,
    start: LogView,
    reports: Seq<u64>,
)
    requires
        start.wf(),
    ensures
        crash_files(output_dir, start, reports).len() == start.replay(reports).uniq_crash_count
            - start.uniq_crash_count,
        crash_files(output_dir, start, reports).no_duplicates(),
{
    lemma_issued_is_consecutive(start, reports);
    let files = crash_files(output_dir, start, reports);
    assert forall|i: int, j: int| 0 <= i < files.len() && 0 <= j < files.len() && i != j implies
        files[i] != files[j] by {
        if files[i] == files[j] {
            lemma_crash_paths_distinct(
                output_dir,
                start.issued(reports)[i],
                start.issued(reports)[j],
            );
        }
    }
}

/// What the execution engine reports of one run, as far as this library
/// reads it: the signature of the coverage path that the run took.
pub struct Feedback {
    pub subpath: u64,
}

/// A crashing input that has to be stored, with the file it goes to.
pub struct CrashFile {
    pub ordinal: u32,
    pub path: String,
    pub bytes: Vec<u8>,
}

/// What became of a reported crash.
pub enum CrashOutcome {
    /// The signature was seen before: the crash was counted and nothing is
    /// to be stored.
    Duplicate,
    /// The signature is new: the crash was counted, numbered, and its input
    /// is to be stored.
    Fresh(CrashFile),
    /// The crash counter cannot count further: nothing was recorded.
    Exhausted,
}

/// The invariant that the lock around a shared [`Log`] maintains: the log
/// is well formed and still carries the time at which the campaign started.
pub struct LogInv {
    pub start_time: SystemTime,
}

impl RwLockPredicate<Log> for LogInv {
    open spec fn inv(self, v: Log) -> bool {
        v.wf() && v.start_time == self.start_time
    }
}

/// The configuration of a campaign.
pub struct Conf {
    pub args: Vec<String>,
    pub input_path: String,
    pub output_dir: String,
    pub path_base: String,
    pub stdin_fd: i32,
    pub timeout: u64,
    pub log: Arc<RwLock<Log, LogInv>>,
}

/// Whether `token` is the placeholder.
fn is_placeholder(token: &str) -> (b: bool)
    ensures
        b == (token@ == placeholder()),
{
    if token.unicode_len() != 2 {
        return false;
    }
    let b = token.get_char(0) == '@' && token.get_char(1) == '@';
    proof {
        if b {
            assert(token@ =~= placeholder());
        }
    }
    b
}

/// Whether some token of `template` is the placeholder.
fn has_placeholder(template: &Vec<&str>) -> (b: bool)
    ensures
        b == names_input_file(template_text(template@)),
{
    let mut i: usize = 0;
    while i < template.len()
        invariant
            i <= template.len(),
            forall|j: int| 0 <= j < i ==> #[trigger] template_text(template@)[j] != placeholder(),
        decreases template.len() - i,
    {
        if is_placeholder(template[i]) {
            assert(template_text(template@)[i as int] == placeholder());
            return true;
        }
        i += 1;
    }
    false
}

impl Conf {
    /// The time at which the campaign started: the start time that the
    /// shared log was made with and keeps for as long as it is shared.
    pub open spec fn started(&self) -> SystemTime {
        self.log.pred().start_time
    }

    /// The command starts with the tracer that sits in `path_base`.
    pub open spec fn wf(&self) -> bool {
        &&& self.args@.len() > 0
        &&& self.args@[0]@ == tracer_path(self.path_base@)
    }

    /// The configuration of a campaign in the workspace `output_dir`, with
    /// a fresh log. `args` is the target's command template, `t` the time
    /// allowed to each run, `input_path` the file to put in place of the
    /// placeholder, `path_base` the directory of the running harness and
    /// `stdin_fd` the open scratch file of the workspace.
    pub fn new(
        args: Vec<&str>,
        output_dir: &str,
        t: u64,
        input_path: &str,
        path_base: &str,
        stdin_fd: i32,
    ) -> (conf: Conf)
        ensures
            conf.wf(),
            conf.input_path@ == resolved_input(template_text(args@), output_dir@, input_path@),
            args_text(conf.args@) == command_line(
                template_text(args@),
                conf.input_path@,
                path_base@,
            ),
            conf.output_dir@ == output_dir@,
            conf.path_base@ == path_base@,
            conf.stdin_fd == stdin_fd,
            conf.timeout == t,
    {
        let input = if has_placeholder(&args) {
            String::from_str(input_path)
        } else {
            stdin_file(output_dir)
        };
        let ghost template = template_text(args@);
        let mut resolved: Vec<String> = Vec::new();
        resolved.push(tracer_file(path_base));
        let mut i: usize = 0;
        while i < args.len()
            invariant
                i <= args.len(),
                template == template_text(args@),
                resolved@.len() == i + 1,
                resolved@[0]@ == tracer_path(path_base@),
                forall|k: int|
                    1 <= k <= i ==> (#[trigger] resolved@[k])@ == substituted(
                        template,
                        input@,
                    )[k - 1],
            decreases args.len() - i,
        {
            let token = args[i];
            assert(template[i as int] == token@);
            if is_placeholder(token) {
                resolved.push(input.clone());
            } else {
                resolved.push(String::from_str(token));
            }
            i += 1;
        }
        assert(args_text(resolved@) =~= command_line(template, input@, path_base@));
        let log = Log::new();
        let ghost kept = LogInv { start_time: log.start_time };
        Conf {
            args: resolved,
            input_path: input,
            output_dir: String::from_str(output_dir),
            path_base: String::from_str(path_base),
            stdin_fd,
            timeout: t,
            log: Arc::new(RwLock::new(log, Ghost(kept))),
        }
    }

    /// As [`Conf::new`], with the workspace's default input file in place of
    /// the placeholder.
    pub fn new_without_filename(
        args: Vec<&str>,
        output_dir: &str,
        t: u64,
        path_base: &str,
        stdin_fd: i32,
    ) -> (conf: Conf)
        ensures
            conf.wf(),
            conf.input_path@ == resolved_input(
                template_text(args@),
                output_dir@,
                default_input_path(output_dir@),
            ),
            args_text(conf.args@) == command_line(
                template_text(args@),
                conf.input_path@,
                path_base@,
            ),
            conf.output_dir@ == output_dir@,
            conf.path_base@ == path_base@,
            conf.stdin_fd == stdin_fd,
            conf.timeout == t,
    {
        let filepath = default_input_file(output_dir);
        Conf::new(args, output_dir, t, filepath.as_str(), path_base, stdin_fd)
    }

    /// Reports a crash to `log`, which the caller holds exclusively. The
    /// crash is counted; if its signature is new it is numbered, and the
    /// result names the file that has to receive `buf`. A log whose crash
    /// counter is at its limit is left as it is.
    pub fn save_crash_in(&self, log: &mut Log, buf: &Vec<u8>, feedback: &Feedback) -> (outcome:
        CrashOutcome)
        requires
            old(log).wf(),
        ensures
            final(log).wf(),
            old(log).crash_count == u32::MAX ==> outcome is Exhausted && *final(log) == *old(log),
            old(log)@.crash_paths.contains(feedback.subpath) ==> {
                &&& !(outcome is Fresh)
                &&& final(log)@.uniq_crash_count == old(log)@.uniq_crash_count
                &&& final(log)@.crash_paths == old(log)@.crash_paths
            },
            old(log).crash_count < u32::MAX ==> {
                &&& final(log)@ == old(log)@.report(feedback.subpath)
                &&& match old(log)@.ordinal(feedback.subpath) {
                    None => outcome is Duplicate,
                    Some(n) => {
                        &&& outcome matches CrashOutcome::Fresh(file)
                        &&& file.ordinal == n
                        &&& file.path@ == crash_path(self.output_dir@, n)
                        &&& file.bytes@ == buf@
                    },
                }
            },
    {
        if log.crash_count == u32::MAX {
            return CrashOutcome::Exhausted;
        }
        match log.record_crash(feedback.subpath) {
            None => CrashOutcome::Duplicate,
            Some(ordinal) => {
                let bytes = buf.clone();
                assert(bytes@ =~= buf@);
                CrashOutcome::Fresh(
                    CrashFile {
                        ordinal,
                        path: crash_file_path(self.output_dir.as_str(), ordinal),
                        bytes,
                    },
                )
            },
        }
    }

    /// Reports a crash to the shared log, under its lock. Which outcome
    /// comes back depends on what the other workers reported before; a
    /// fresh crash carries `buf` and the file of this campaign that its
    /// ordinal names.
    pub fn save_crash(&self, buf: &Vec<u8>, feedback: &Feedback) -> (outcome: CrashOutcome)
        ensures
            outcome matches CrashOutcome::Fresh(file) ==> {
                &&& file.ordinal >= 1
                &&& file.path@ == crash_path(self.output_dir@, file.ordinal as nat)
                &&& file.bytes@ == buf@
            },
    {
        let (mut log, handle) = self.log.acquire_write();
        let outcome = self.save_crash_in(&mut log, buf, feedback);
        handle.release_write(log);
        outcome
    }

    /// A copy of the shared log as it stands, taken under the lock. Its
    /// counters are whatever the workers have reported so far; it is well
    /// formed and carries the campaign's start time.
    pub fn snapshot(&self) -> (log: Log)
        ensures
            log.wf(),
            log.start_time == self.started(),
    {
        let handle = self.log.acquire_read();
        let log = handle.borrow().clone();
        handle.release_read();
        log
    }
}

} // verus!
