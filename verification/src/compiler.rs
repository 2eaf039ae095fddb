//! Planning and result classification for a build run.
//!
//! A run stages every input — substituted through the dictionary — into
//! a fresh workspace, invokes the external compiler twice (the second
//! pass resolves cross-references recorded by the first), and reads the
//! artifact back from the workspace root. Everything that can be
//! decided from plain values is decided here: the no-input check, the
//! substitution, the path-safety check, the command line, the expected
//! artifact name, and how the read-back outcome maps onto errors. The
//! unverified shell around the library only executes the plan.

use vstd::prelude::*;

use crate::error::LatexError;
use crate::input::LatexInput;
use crate::paths::{artifact_name, artifact_name_spec, check_path, path_is_safe};
use crate::template::{spec_substitute, substitute, TemplateDict};

verus! {

/// A command line: the executable name and its arguments.
pub type Cmd = (String, Vec<String>);

/// Whether every logical path in `entries` may be staged.
pub open spec fn all_paths_safe(entries: Seq<(Seq<char>, Seq<u8>)>) -> bool {
    forall|i: int| 0 <= i < entries.len() ==> path_is_safe(#[trigger] entries[i].0)
}

/// The staged form of `entries`: each content substituted through
/// `dict`, each logical path kept.
pub open spec fn staged_files(
    entries: Seq<(Seq<char>, Seq<u8>)>,
    dict: Map<Seq<u8>, Seq<u8>>,
) -> Seq<(Seq<char>, Seq<u8>)> {
    entries.map(|i: int, e: (Seq<char>, Seq<u8>)| (e.0, spec_substitute(e.1, dict)))
}

/// Everything a run needs before any filesystem or process activity:
/// the files to write into the workspace, the command line for both
/// passes, and the artifact expected at the workspace root afterwards.
pub struct BuildPlan {
    /// Substituted contents, keyed by safe logical path, in input
    /// order; a later duplicate path overwrites an earlier one when
    /// written in order.
    pub files: Vec<(String, Vec<u8>)>,
    /// The executable to invoke, with the workspace root as working
    /// directory.
    pub program: String,
    /// Its full argument list, the main entry name last.
    pub args: Vec<String>,
    /// The file name of the expected artifact at the workspace root.
    pub artifact: String,
    /// How many times to invoke the command: always two passes, so the
    /// cross-references recorded by the first are resolved by the
    /// second.
    pub passes: usize,
}

/// What the shell found when it read the artifact back after the second
/// pass.
pub enum ArtifactOutcome {
    /// The artifact existed and these are its bytes.
    Found(Vec<u8>),
    /// No file of the expected name existed.
    Missing,
    /// The file existed but could not be read; carries the OS error
    /// text.
    Unreadable(String),
}

/// The wrapper around some external LaTeX compiler: the command line to
/// invoke and the dictionary for the substitution pass.
pub struct LatexCompiler {
    pub cmd: Cmd,
    pub dict: TemplateDict,
}

impl LatexCompiler {
    /// A compiler wrapper with the conventional defaults: `pdflatex`
    /// in non-interactive mode.
    pub fn new(dict: TemplateDict) -> (r: LatexCompiler)
        ensures
            r.dict == dict,
            r.cmd.0@ == "pdflatex"@,
            r.cmd.1.deep_view() =~= seq!["-interaction=nonstopmode"@],
    {
        let mut args: Vec<String> = Vec::new();
        args.push(String::from_str("-interaction=nonstopmode"));
        LatexCompiler { cmd: (String::from_str("pdflatex"), args), dict }
    }

    /// Replaces the executable name, keeping the arguments.
    pub fn with_cmd(self, cmd: &str) -> (r: Self)
        ensures
            r.cmd.0@ == cmd@,
            r.cmd.1 == self.cmd.1,
            r.dict == self.dict,
    {
        LatexCompiler { cmd: (String::from_str(cmd), self.cmd.1), dict: self.dict }
    }

    /// Replaces the whole argument list by a single argument.
    pub fn with_args(self, cmd: &str) -> (r: Self)
        ensures
            r.cmd.0 == self.cmd.0,
            r.cmd.1.deep_view() =~= seq![cmd@],
            r.dict == self.dict,
    {
        let mut args: Vec<String> = Vec::new();
        args.push(String::from_str(cmd));
        LatexCompiler { cmd: (self.cmd.0, args), dict: self.dict }
    }

    /// Appends one argument to the command line.
    pub fn add_arg(self, cmd: &str) -> (r: Self)
        ensures
            r.cmd.0 == self.cmd.0,
            r.cmd.1.deep_view() =~= self.cmd.1.deep_view().push(cmd@),
            r.dict == self.dict,
    {
        let mut args = self.cmd.1;
        let ghost prevec = args@;
        let ghost before = args.deep_view();
        args.push(String::from_str(cmd));
        proof {
            assert forall|j: int| 0 <= j < before.len() implies args.deep_view()[j] == before[j] by {
                assert(args@[j] == prevec[j]);
            }
        }
        LatexCompiler { cmd: (self.cmd.0, args), dict: self.dict }
    }

    /// Plans one run of the compiler on `input` with `main` as entry.
    ///
    /// Succeeds exactly when the input set is non-empty and every
    /// logical path is safe to stage. The plan then holds every input
    /// substituted through the dictionary in input order, the command
    /// line with `main` appended, and the expected artifact name. An
    /// empty input set fails with `NoInput` before anything else; an
    /// unsafe path fails with `BadPath` naming the first such path.
    pub fn prepare(&self, main: &str, input: &LatexInput) -> (r: Result<BuildPlan, LatexError>)
        ensures
            match r {
                Ok(plan) => {
                    &&& input.entries().len() > 0
                    &&& all_paths_safe(input.entries())
                    &&& plan.files.deep_view() == staged_files(input.entries(), self.dict@)
                    &&& plan.program@ == self.cmd.0@
                    &&& plan.args.deep_view() == self.cmd.1.deep_view().push(main@)
                    &&& plan.artifact@ == artifact_name_spec(main@)
                    &&& plan.passes == 2
                },
                Err(e) => match e {
                    LatexError::NoInput => input.entries().len() == 0,
                    LatexError::BadPath(p) => exists|k: int|
                        0 <= k < input.entries().len() && !path_is_safe(
                            #[trigger] input.entries()[k].0,
                        ) && p@ == input.entries()[k].0 && (forall|j: int|
                            0 <= j < k ==> path_is_safe(#[trigger] input.entries()[j].0)),
                    _ => false,
                },
            },
    {
        if input.input.len() == 0 {
            return Err(LatexError::NoInput);
        }
        let mut files: Vec<(String, Vec<u8>)> = Vec::new();
        let mut i: usize = 0;
        while i < input.input.len()
            invariant
                i <= input.entries().len(),
                files@.len() == i,
                forall|j: int|
                    0 <= j < i ==> path_is_safe(#[trigger] input.entries()[j].0),
                forall|j: int|
                    0 <= j < i ==> (#[trigger] files@[j]).0@ == input.entries()[j].0
                        && files@[j].1@ == spec_substitute(
                        input.entries()[j].1,
                        self.dict@,
                    ),
            decreases input.entries().len() - i,
        {
            let entry = &input.input[i];
            if !check_path(entry.0.as_str()) {
                proof {
                    assert(!path_is_safe(input.entries()[i as int].0));
                }
                return Err(LatexError::BadPath(entry.0.clone()));
            }
            let content = substitute(entry.1.as_slice(), &self.dict);
            proof {
                assert(entry.1@ =~= input.entries()[i as int].1);
            }
            files.push((entry.0.clone(), content));
            i = i + 1;
        }
        proof {
            let staged = staged_files(input.entries(), self.dict@);
            assert forall|j: int| 0 <= j < files@.len() implies files.deep_view()[j] == staged[j] by {
                assert(files@[j].1.deep_view() =~= files@[j].1@);
            }
            assert(files.deep_view() =~= staged);
        }
        let mut args: Vec<String> = Vec::new();
        let mut k: usize = 0;
        while k < self.cmd.1.len()
            invariant
                k <= self.cmd.1@.len(),
                args@.len() == k,
                forall|j: int| 0 <= j < k ==> args@[j] == self.cmd.1@[j],
            decreases self.cmd.1@.len() - k,
        {
            args.push(self.cmd.1[k].clone());
            k = k + 1;
        }
        args.push(String::from_str(main));
        proof {
            assert(args.deep_view() =~= self.cmd.1.deep_view().push(main@));
        }
        let artifact = artifact_name(main);
        Ok(BuildPlan { files, program: self.cmd.0.clone(), args, artifact, passes: 2 })
    }
}

/// Classifies what the shell read back after the second pass: found
/// bytes are the run's result; a missing artifact is a compilation
/// failure; an unreadable one is an I/O failure carrying the OS error
/// text.
pub fn extract_artifact(outcome: ArtifactOutcome) -> (r: Result<Vec<u8>, LatexError>)
    ensures
        match outcome {
            ArtifactOutcome::Found(bytes) => r matches Ok(b) && b@ == bytes@,
            ArtifactOutcome::Missing => r matches Err(LatexError::Compilation),
            ArtifactOutcome::Unreadable(m) => r matches Err(LatexError::Io(t)) && t@ == m@,
        },
{
    match outcome {
        ArtifactOutcome::Found(bytes) => Ok(bytes),
        ArtifactOutcome::Missing => Err(LatexError::Compilation),
        ArtifactOutcome::Unreadable(m) => Err(LatexError::Io(m)),
    }
}

} // verus!
