//! Where a campaign keeps its files: the directories and the scratch file
//! that are created when it starts, and the names under which crashing
//! inputs are stored.

use crate::platform::{parent_of, path_parent};
use vstd::prelude::*;
use vstd::string::*;

verus! {

/// The text of a single decimal digit.
pub open spec fn digit(d: nat) -> char
    recommends
        d < 10,
{
    if d == 0 {
        '0'
    } else if d == 1 {
        '1'
    } else if d == 2 {
        '2'
    } else if d == 3 {
        '3'
    } else if d == 4 {
        '4'
    } else if d == 5 {
        '5'
    } else if d == 6 {
        '6'
    } else if d == 7 {
        '7'
    } else if d == 8 {
        '8'
    } else {
        '9'
    }
}

/// The decimal numeral of `n`, without sign or leading zeros.
pub open spec fn decimal(n: nat) -> Seq<char>
    decreases n,
{
    if n < 10 {
        seq![digit(n)]
    } else {
        decimal(n / 10).push(digit(n % 10))
    }
}

/// The digit that a character shows; zero for any other character.
pub open spec fn digit_value(c: char) -> nat {
    if c == '1' {
        1
    } else if c == '2' {
        2
    } else if c == '3' {
        3
    } else if c == '4' {
        4
    } else if c == '5' {
        5
    } else if c == '6' {
        6
    } else if c == '7' {
        7
    } else if c == '8' {
        8
    } else if c == '9' {
        9
    } else {
        0
    }
}

/// The number that a numeral denotes, read digit by digit.
pub open spec fn numeral_value(s: Seq<char>) -> nat
    decreases s.len(),
{
    if s.len() == 0 {
        0
    } else {
        numeral_value(s.drop_last()) * 10 + digit_value(s.last())
    }
}

/// The directory reserved for queued seeds.
pub open spec fn queue_dir(output_dir: Seq<char>) -> Seq<char> {
    output_dir + "/queue"@
}

/// The directory that holds one file per unique crash.
pub open spec fn crash_dir(output_dir: Seq<char>) -> Seq<char> {
    output_dir + "/crash"@
}

/// The scratch file that feeds a target reading its standard input.
pub open spec fn stdin_path(output_dir: Seq<char>) -> Seq<char> {
    output_dir + "/.stdin"@
}

/// The file that receives each mutated input when the caller names none.
pub open spec fn default_input_path(output_dir: Seq<char>) -> Seq<char> {
    output_dir + "/.input"@
}

/// The directory of a harness whose program path has the parent `parent`:
/// the parent itself, or the empty path where there is none.
pub open spec fn base_of(parent: Option<Seq<char>>) -> Seq<char> {
    match parent {
        Some(p) => p,
        None => Seq::empty(),
    }
}

/// The coverage tracer that sits beside the running harness.
pub open spec fn tracer_path(path_base: Seq<char>) -> Seq<char> {
    path_base + "/qemu-trace-coverage"@
}

/// The file that holds the input of the unique crash numbered `ordinal`.
pub open spec fn crash_path(output_dir: Seq<char>, ordinal: nat) -> Seq<char> {
    output_dir + "/crash/tc-"@ + decimal(ordinal)
}

/// Reading back the numeral of a number gives the number.
pub proof fn lemma_numeral_value_of_decimal(n: nat)
    ensures
        numeral_value(decimal(n)) == n,
    decreases n,
{
    if n < 10 {
        let s = seq![digit(n)];
        assert(s.len() == 1);
        assert(s.last() == digit(n));
        assert(s.drop_last().len() == 0);
        assert(numeral_value(s.drop_last()) == 0);
    } else {
        lemma_numeral_value_of_decimal(n / 10);
        let s = decimal(n / 10).push(digit(n % 10));
        assert(s.drop_last() =~= decimal(n / 10));
        assert(s.last() == digit(n % 10));
    }
}

/// Two numbers with the same numeral are the same number.
pub proof fn lemma_decimal_injective(a: nat, b: nat)
    requires
        decimal(a) == decimal(b),
    ensures
        a == b,
{
    lemma_numeral_value_of_decimal(a);
    lemma_numeral_value_of_decimal(b);
}

/// Crash files never collide: within one campaign, two ordinals that name
/// the same file are the same ordinal.
pub proof fn lemma_crash_paths_distinct(output_dir: Seq<char>, a: nat, b: nat)
    requires
        crash_path(output_dir, a) == crash_path(output_dir, b),
    ensures
        a == b,
{
    let prefix = output_dir + "/crash/tc-"@;
    let pa = crash_path(output_dir, a);
    let pb = crash_path(output_dir, b);
    assert(pa.subrange(prefix.len() as int, pa.len() as int) =~= decimal(a));
    assert(pb.subrange(prefix.len() as int, pb.len() as int) =~= decimal(b));
    lemma_decimal_injective(a, b);
}

/// The one-character text of a digit.
fn digit_text(d: u32) -> (s: &'static str)
    requires
        d < 10,
    ensures
        s@ == seq![digit(d as nat)],
{
    proof {
        reveal_strlit("0");
        reveal_strlit("1");
        reveal_strlit("2");
        reveal_strlit("3");
        reveal_strlit("4");
        reveal_strlit("5");
        reveal_strlit("6");
        reveal_strlit("7");
        reveal_strlit("8");
        reveal_strlit("9");
    }
    let s = if d == 0 {
        "0"
    } else if d == 1 {
        "1"
    } else if d == 2 {
        "2"
    } else if d == 3 {
        "3"
    } else if d == 4 {
        "4"
    } else if d == 5 {
        "5"
    } else if d == 6 {
        "6"
    } else if d == 7 {
        "7"
    } else if d == 8 {
        "8"
    } else {
        "9"
    };
    assert(s@ =~= seq![digit(d as nat)]);
    s
}

/// Writes `n` as a decimal numeral.
pub fn decimal_string(n: u32) -> (s: String)
    ensures
        s@ == decimal(n as nat),
    decreases n,
{
    if n < 10 {
        String::from_str(digit_text(n))
    } else {
        let mut s = decimal_string(n / 10);
        s.append(digit_text(n % 10));
        assert(s@ =~= decimal(n as nat));
        s
    }
}

/// The path made of `dir` followed by `tail`.
fn path_with(dir: &str, tail: &str) -> (p: String)
    ensures
        p@ == dir@ + tail@,
{
    let mut p = String::from_str(dir);
    p.append(tail);
    p
}

/// The scratch file of `output_dir` that stands in for standard input.
pub fn stdin_file(output_dir: &str) -> (p: String)
    ensures
        p@ == stdin_path(output_dir@),
{
    path_with(output_dir, "/.stdin")
}

/// The file of `output_dir` that receives mutated inputs by default.
pub fn default_input_file(output_dir: &str) -> (p: String)
    ensures
        p@ == default_input_path(output_dir@),
{
    path_with(output_dir, "/.input")
}

/// The directory of a harness, from the parent of its program path.
pub fn base_from_parent(parent: Option<String>) -> (base: String)
    ensures
        base@ == base_of(
            match parent {
                Some(p) => Some(p@),
                None => None,
            },
        ),
{
    match parent {
        Some(p) => p,
        None => String::new(),
    }
}

/// The directory that holds the harness started as `program`.
pub fn harness_dir(program: &str) -> (base: String)
    ensures
        base@ == base_of(parent_of(program@)),
{
    base_from_parent(path_parent(program))
}

/// The coverage tracer in the directory `path_base`.
pub fn tracer_file(path_base: &str) -> (p: String)
    ensures
        p@ == tracer_path(path_base@),
{
    path_with(path_base, "/qemu-trace-coverage")
}

/// The crash file of `output_dir` for the unique crash numbered `ordinal`.
pub fn crash_file_path(output_dir: &str, ordinal: u32) -> (p: String)
    ensures
        p@ == crash_path(output_dir@, ordinal as nat),
{
    let mut p = path_with(output_dir, "/crash/tc-");
    let numeral = decimal_string(ordinal);
    p.append(numeral.as_str());
    p
}

/// Why a campaign's workspace cannot be set up.
pub enum SetupError {
    /// The output directory is already there; it may hold an earlier
    /// campaign's queue and crashes.
    AlreadyExists(String),
}

impl SetupError {
    /// The line shown to the user.
    pub fn message(&self) -> (m: String)
        ensures
            match self {
                SetupError::AlreadyExists(path) => m@ == "Error: "@ + path@ + " already exists"@,
            },
    {
        match self {
            SetupError::AlreadyExists(path) => {
                let mut m = path_with("Error: ", path.as_str());
                m.append(" already exists");
                m
            },
        }
    }
}

/// What has to be created, in this order, before a campaign can run: the
/// three directories, then the scratch file.
pub struct Workspace {
    pub root: String,
    pub queue: String,
    pub crash: String,
    pub stdin: String,
}

impl Workspace {
    /// The workspace is the one rooted at `output_dir`.
    pub open spec fn is_rooted_at(&self, output_dir: Seq<char>) -> bool {
        &&& self.root@ == output_dir
        &&& self.queue@ == queue_dir(output_dir)
        &&& self.crash@ == crash_dir(output_dir)
        &&& self.stdin@ == stdin_path(output_dir)
    }

    /// Decides whether a campaign may use `output_dir`, given whether
    /// something already `exists` at that path. An existing path is refused
    /// and nothing is handed out to create; otherwise the result lists the
    /// entries to create.
    pub fn plan(output_dir: &str, exists: bool) -> (plan: Result<Workspace, SetupError>)
        ensures
            match plan {
                Ok(workspace) => !exists && workspace.is_rooted_at(output_dir@),
                Err(SetupError::AlreadyExists(path)) => exists && path@ == output_dir@,
            },
    {
        if exists {
            Err(SetupError::AlreadyExists(String::from_str(output_dir)))
        } else {
            Ok(
                Workspace {
                    root: String::from_str(output_dir),
                    queue: path_with(output_dir, "/queue"),
                    crash: path_with(output_dir, "/crash"),
                    stdin: stdin_file(output_dir),
                },
            )
        }
    }
}

} // verus!
