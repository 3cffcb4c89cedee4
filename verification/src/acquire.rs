//! The engine subprocess protocol that exports an OCI image as a tar file.
//!
//! Acquisition runs exactly three engine subcommands, in a fixed order:
//! `create <image>` (its standard output, trimmed of surrounding
//! whitespace, is the ephemeral container id), `export <id> --output
//! <path>`, and `rm <id>`. A failing step ends the run at once: the
//! remaining subcommands are never issued, so a failed `export` leaks the
//! ephemeral container by design.
//!
//! Running a subprocess is I/O and stays outside the library. The
//! [`Acquisition`] machine decides everything else: the caller asks
//! [`Acquisition::next_command`] what to run, runs it, and reports the
//! outcome to [`Acquisition::advance`].

use vstd::prelude::*;

use crate::create::CreateError;
use crate::create::Engine;

verus! {

/// One subprocess invocation: the program to run and its arguments.
#[derive(Debug)]
pub struct Invocation {
    pub program: String,
    pub args: Vec<String>,
}

/// The words of an invocation: the program followed by its arguments.
pub open spec fn invocation_words(inv: Invocation) -> Seq<Seq<char>> {
    seq![inv.program@] + inv.args@.map_values(|s: String| s@)
}

/// What a finished subprocess reported: whether it exited successfully,
/// and what it wrote to standard output.
#[derive(Debug)]
pub struct CmdResult {
    pub success: bool,
    pub stdout: String,
}

/// The three steps of the engine protocol.
#[derive(Clone, Copy, PartialEq, Eq, Structural, Debug)]
pub enum EngineStep {
    Create,
    Export,
    Remove,
}

/// Where one acquisition run stands.
#[derive(Debug)]
pub enum AcqPhase {
    /// `create <image>` is the next command.
    Creating,
    /// `create` succeeded and `cid` is its trimmed output; `export <cid>
    /// --output <path>` is the next command.
    Exporting { cid: String },
    /// `export` succeeded; `rm <cid>` is the next command.
    Removing { cid: String },
    /// `rm` succeeded; the tar file is in place and no command is left.
    Done,
    /// The named step failed; no further command is issued.
    Failed { step: EngineStep },
}

/// One run of the engine protocol for one image.
#[derive(Debug)]
pub struct Acquisition {
    pub engine: Engine,
    pub image: String,
    pub tar_path: String,
    pub phase: AcqPhase,
}

/// A character the container id is trimmed of.
pub open spec fn is_space(c: char) -> bool {
    c == ' ' || c == '\t' || c == '\n' || c == '\r'
}

/// `s` without leading and trailing whitespace.
pub open spec fn trim_spec(s: Seq<char>) -> Seq<char>
    decreases s.len(),
{
    if s.len() == 0 {
        s
    } else if is_space(s[0]) {
        trim_spec(s.drop_first())
    } else if is_space(s.last()) {
        trim_spec(s.drop_last())
    } else {
        s
    }
}

fn is_space_char(c: char) -> (b: bool)
    ensures
        b == is_space(c),
{
    c == ' ' || c == '\t' || c == '\n' || c == '\r'
}

proof fn lemma_trim_subrange(s: Seq<char>, start: int, end: int)
    requires
        0 <= start <= end <= s.len(),
        forall|k: int| 0 <= k < start ==> is_space(#[trigger] s[k]),
        forall|k: int| end <= k < s.len() ==> is_space(#[trigger] s[k]),
        start < end ==> !is_space(s[start]) && !is_space(s[end - 1]),
    ensures
        trim_spec(s) == s.subrange(start, end),
    decreases s.len(),
{
    if s.len() == 0 {
        assert(s.subrange(start, end) =~= s);
    } else if is_space(s[0]) {
        let d = s.drop_first();
        assert(forall|k: int| 0 <= k < d.len() ==> #[trigger] d[k] == s[k + 1]);
        if start > 0 {
            lemma_trim_subrange(d, start - 1, end - 1);
            assert(d.subrange(start - 1, end - 1) =~= s.subrange(start, end));
        } else {
            // the first character is whitespace, so nothing is kept and
            // every character is whitespace
            assert(start == end);
            lemma_trim_subrange(d, 0, 0);
            assert(d.subrange(0, 0) =~= s.subrange(start, end));
        }
    } else if is_space(s.last()) {
        let d = s.drop_last();
        if end < s.len() {
            lemma_trim_subrange(d, start, end);
            assert(d.subrange(start, end) =~= s.subrange(start, end));
        } else {
            assert(start == end);
            lemma_trim_subrange(d, d.len() as int, d.len() as int);
            assert(d.subrange(d.len() as int, d.len() as int) =~= s.subrange(start, end));
        }
    } else {
        assert(start == 0 && end == s.len());
        assert(s.subrange(0, s.len() as int) =~= s);
    }
}

/// `s` without leading and trailing whitespace (space, tab, newline,
/// carriage return), as the engine's standard output is trimmed before its
/// container id is used.
pub fn trim_whitespace(s: &str) -> (r: String)
    ensures
        r@ == trim_spec(s@),
{
    let len: usize = s.unicode_len();
    let mut start: usize = 0;
    while start < len && is_space_char(s.get_char(start))
        invariant
            0 <= start <= len,
            len == s@.len(),
            forall|k: int| 0 <= k < start ==> is_space(#[trigger] s@[k]),
        decreases len - start,
    {
        start += 1;
    }
    let mut end: usize = len;
    while end > start && is_space_char(s.get_char(end - 1))
        invariant
            start <= end <= len,
            len == s@.len(),
            forall|k: int| 0 <= k < start ==> is_space(#[trigger] s@[k]),
            forall|k: int| end <= k < len ==> is_space(#[trigger] s@[k]),
        decreases end,
    {
        end -= 1;
    }
    proof {
        lemma_trim_subrange(s@, start as int, end as int);
    }
    let sub: &str = s.substring_char(start, end);
    String::from_str(sub)
}

/// The command the machine asks for in a phase: the engine binary followed
/// by the subcommand and its arguments, or nothing in a terminal phase.
pub open spec fn command_of(a: Acquisition) -> Option<Seq<Seq<char>>> {
    match a.phase {
        AcqPhase::Creating => Some(seq![a.engine.binary_spec(), "create"@, a.image@]),
        AcqPhase::Exporting { cid } => Some(
            seq![a.engine.binary_spec(), "export"@, cid@, "--output"@, a.tar_path@],
        ),
        AcqPhase::Removing { cid } => Some(seq![a.engine.binary_spec(), "rm"@, cid@]),
        AcqPhase::Done => None,
        AcqPhase::Failed { .. } => None,
    }
}

/// How one reported outcome moves the machine from `pre` to `post`.
pub open spec fn advances_to(pre: Acquisition, r: CmdResult, post: Acquisition) -> bool {
    &&& post.engine == pre.engine
    &&& post.image@ == pre.image@
    &&& post.tar_path@ == pre.tar_path@
    &&& match pre.phase {
        AcqPhase::Creating => {
            if r.success && trim_spec(r.stdout@).len() > 0 {
                post.phase matches AcqPhase::Exporting { cid } && cid@ == trim_spec(r.stdout@)
            } else {
                post.phase == (AcqPhase::Failed { step: EngineStep::Create })
            }
        },
        AcqPhase::Exporting { cid } => {
            if r.success {
                post.phase matches AcqPhase::Removing { cid: c } && c@ == cid@
            } else {
                post.phase == (AcqPhase::Failed { step: EngineStep::Export })
            }
        },
        AcqPhase::Removing { cid } => {
            if r.success {
                post.phase is Done
            } else {
                post.phase == (AcqPhase::Failed { step: EngineStep::Remove })
            }
        },
        AcqPhase::Done => post.phase is Done,
        AcqPhase::Failed { step } => post.phase == (AcqPhase::Failed { step }),
    }
}

/// Begin acquiring an OCI image: the returned machine drives the engine
/// protocol for `url`, writing the exported archive to `tar_file`.
pub fn get_image(engine: Engine, url: String, tar_file: String) -> (a: Acquisition)
    ensures
        a.engine == engine,
        a.image@ == url@,
        a.tar_path@ == tar_file@,
        a.phase is Creating,
{
    Acquisition { engine, image: url, tar_path: tar_file, phase: AcqPhase::Creating }
}

impl Acquisition {
    /// A run that ended without completing the protocol.
    pub open spec fn failed(&self) -> bool {
        self.phase is Failed
    }

    /// A run that completed the protocol: the tar file is in place.
    pub open spec fn done(&self) -> bool {
        self.phase is Done
    }

    /// The next command to run, or nothing once the run has ended.
    pub fn next_command(&self) -> (c: Option<Invocation>)
        ensures
            c is Some <==> !(self.done() || self.failed()),
            c matches Some(inv) ==> command_of(*self) == Some(invocation_words(inv)),
    {
        match &self.phase {
            AcqPhase::Creating => {
                let mut args: Vec<String> = Vec::new();
                args.push(String::from_str("create"));
                args.push(self.image.clone());
                let inv = Invocation { program: self.engine.binary(), args };
                proof {
                    assert(invocation_words(inv) =~= command_of(*self)->Some_0);
                }
                Some(inv)
            },
            AcqPhase::Exporting { cid } => {
                let mut args: Vec<String> = Vec::new();
                args.push(String::from_str("export"));
                args.push(cid.clone());
                args.push(String::from_str("--output"));
                args.push(self.tar_path.clone());
                let inv = Invocation { program: self.engine.binary(), args };
                proof {
                    assert(invocation_words(inv) =~= command_of(*self)->Some_0);
                }
                Some(inv)
            },
            AcqPhase::Removing { cid } => {
                let mut args: Vec<String> = Vec::new();
                args.push(String::from_str("rm"));
                args.push(cid.clone());
                let inv = Invocation { program: self.engine.binary(), args };
                proof {
                    assert(invocation_words(inv) =~= command_of(*self)->Some_0);
                }
                Some(inv)
            },
            AcqPhase::Done => None,
            AcqPhase::Failed { .. } => None,
        }
    }

    /// Record the outcome of the command the machine last asked for.
    pub fn advance(&mut self, result: CmdResult)
        ensures
            advances_to(*old(self), result, *final(self)),
    {
        let next: AcqPhase = match &self.phase {
            AcqPhase::Creating => {
                if result.success {
                    let cid = trim_whitespace(result.stdout.as_str());
                    if cid.as_str().is_empty() {
                        AcqPhase::Failed { step: EngineStep::Create }
                    } else {
                        AcqPhase::Exporting { cid }
                    }
                } else {
                    AcqPhase::Failed { step: EngineStep::Create }
                }
            },
            AcqPhase::Exporting { cid } => {
                if result.success {
                    AcqPhase::Removing { cid: cid.clone() }
                } else {
                    AcqPhase::Failed { step: EngineStep::Export }
                }
            },
            AcqPhase::Removing { .. } => {
                if result.success {
                    AcqPhase::Done
                } else {
                    AcqPhase::Failed { step: EngineStep::Remove }
                }
            },
            AcqPhase::Done => AcqPhase::Done,
            AcqPhase::Failed { step } => AcqPhase::Failed { step: *step },
        };
        self.phase = next;
    }

    /// The error a failed run surfaces.
    pub fn error(&self) -> (e: Option<CreateError>)
        ensures
            e is Some <==> self.failed(),
            self.failed() ==> e == Some(CreateError::EngineError),
    {
        match &self.phase {
            AcqPhase::Failed { .. } => Some(CreateError::EngineError),
            _ => None,
        }
    }
}

/// The protocol in one statement. A run that starts at `create` issues the
/// three commands in the fixed order create, export, rm; the container id
/// `export` and `rm` receive is exactly `create`'s standard output, trimmed
/// of surrounding whitespace; and a failed step ends the run with no
/// further command, so when `export` fails, `rm` is never issued for that
/// id.
pub proof fn lemma_engine_protocol(
    a0: Acquisition,
    r1: CmdResult,
    a1: Acquisition,
    r2: CmdResult,
    a2: Acquisition,
    r3: CmdResult,
    a3: Acquisition,
)
    requires
        a0.phase is Creating,
        advances_to(a0, r1, a1),
        advances_to(a1, r2, a2),
        advances_to(a2, r3, a3),
    ensures
        command_of(a0) == Some(seq![a0.engine.binary_spec(), "create"@, a0.image@]),
        r1.success && trim_spec(r1.stdout@).len() > 0 ==> command_of(a1) == Some(
            seq![
                a0.engine.binary_spec(),
                "export"@,
                trim_spec(r1.stdout@),
                "--output"@,
                a0.tar_path@,
            ],
        ),
        !(r1.success && trim_spec(r1.stdout@).len() > 0) ==> a1.failed() && command_of(a1) is None,
        r1.success && trim_spec(r1.stdout@).len() > 0 && r2.success ==> command_of(a2) == Some(
            seq![a0.engine.binary_spec(), "rm"@, trim_spec(r1.stdout@)],
        ),
        r1.success && trim_spec(r1.stdout@).len() > 0 && !r2.success ==> a2.failed() && command_of(
            a2,
        ) is None,
        r1.success && trim_spec(r1.stdout@).len() > 0 && r2.success && r3.success ==> a3.done()
            && command_of(a3) is None,
{
    if r1.success && trim_spec(r1.stdout@).len() > 0 {
        let cid = a1.phase->Exporting_cid;
        assert(command_of(a1)->Some_0 =~= seq![
            a0.engine.binary_spec(),
            "export"@,
            trim_spec(r1.stdout@),
            "--output"@,
            a0.tar_path@,
        ]);
        if r2.success {
            assert(command_of(a2)->Some_0 =~= seq![
                a0.engine.binary_spec(),
                "rm"@,
                trim_spec(r1.stdout@),
            ]);
        }
    }
}

} // verus!
