//! The outcomes of external programs (`git`, `gh`) and the messages for those that failed.
use vstd::prelude::*;

use crate::model::result_view;
use crate::text::{chars_of, lossy, string_of, trim, trimmed, utf8_lossy};

pub mod laws;

verus! {

/// Why an external command did not produce output.
#[derive(Debug)]
pub enum CmdError {
    /// The program is not installed (not found on `PATH`).
    Missing,
    /// The program ran and failed, or could not be started; carries a readable reason.
    Failed(String),
}

/// A [`CmdError`] with its reason as a sequence of characters.
pub enum CmdErrorView {
    Missing,
    Failed(Seq<char>),
}

impl DeepView for CmdError {
    type V = CmdErrorView;

    open spec fn deep_view(&self) -> CmdErrorView {
        match self {
            CmdError::Missing => CmdErrorView::Missing,
            CmdError::Failed(reason) => CmdErrorView::Failed(reason@),
        }
    }
}

/// What a finished program left behind.
#[derive(Debug)]
pub struct Output {
    /// The exit code; `None` when a signal ended the program.
    pub code: Option<i32>,
    /// The exit status in words, such as `exit status: 1`.
    pub status: String,
    pub stdout: Vec<u8>,
    pub stderr: Vec<u8>,
}

/// An [`Output`] as mathematical values.
pub struct OutputView {
    pub code: Option<i32>,
    pub status: Seq<char>,
    pub stdout: Seq<u8>,
    pub stderr: Seq<u8>,
}

impl DeepView for Output {
    type V = OutputView;

    open spec fn deep_view(&self) -> OutputView {
        OutputView {
            code: self.code,
            status: self.status@,
            stdout: self.stdout@,
            stderr: self.stderr@,
        }
    }
}

/// How an attempt to run a program ended.
#[derive(Debug)]
pub enum Attempt {
    /// The working directory does not exist.
    NoDirectory,
    /// The program was not found.
    NotFound,
    /// The program could not be started for another reason.
    NotStarted(String),
    Finished(Output),
}

/// An [`Attempt`] as mathematical values.
pub enum AttemptView {
    NoDirectory,
    NotFound,
    NotStarted(Seq<char>),
    Finished(OutputView),
}

impl DeepView for Attempt {
    type V = AttemptView;

    open spec fn deep_view(&self) -> AttemptView {
        match self {
            Attempt::NoDirectory => AttemptView::NoDirectory,
            Attempt::NotFound => AttemptView::NotFound,
            Attempt::NotStarted(reason) => AttemptView::NotStarted(reason@),
            Attempt::Finished(output) => AttemptView::Finished(output.deep_view()),
        }
    }
}

/// `words` with one space between neighbours.
pub open spec fn spaced(words: Seq<Seq<char>>) -> Seq<char>
    decreases words.len(),
{
    if words.len() == 0 {
        Seq::empty()
    } else if words.len() == 1 {
        words[0]
    } else {
        spaced(words.drop_last()) + " "@ + words.last()
    }
}

/// stderr of a failed command, or a generic message when it printed nothing.
pub open spec fn failure(
    program: Seq<char>,
    args: Seq<Seq<char>>,
    output: OutputView,
) -> Seq<char> {
    let stderr = trim(utf8_lossy(output.stderr));
    if stderr.len() == 0 {
        program + " "@ + spaced(args) + " failed ("@ + output.status + ")"@
    } else {
        stderr
    }
}

/// What an attempt to run `program` in `dir` gives, whatever the exit code.
pub open spec fn status_of(
    program: Seq<char>,
    dir: Seq<char>,
    attempt: AttemptView,
) -> Result<OutputView, CmdErrorView> {
    match attempt {
        AttemptView::NoDirectory => Err(CmdErrorView::Failed("directory not found: "@ + dir)),
        AttemptView::NotFound => Err(CmdErrorView::Missing),
        AttemptView::NotStarted(reason) => Err(
            CmdErrorView::Failed("could not run "@ + program + ": "@ + reason),
        ),
        AttemptView::Finished(output) => Ok(output),
    }
}

/// The stdout of `program args...` run in `dir`; a non-zero exit is an error.
pub open spec fn stdout_of(
    program: Seq<char>,
    dir: Seq<char>,
    args: Seq<Seq<char>>,
    attempt: AttemptView,
) -> Result<Seq<u8>, CmdErrorView> {
    match status_of(program, dir, attempt) {
        Ok(output) => if output.code == Some(0i32) {
            Ok(output.stdout)
        } else {
            Err(CmdErrorView::Failed(failure(program, args, output)))
        },
        Err(err) => Err(err),
    }
}

/// `words` with one space between neighbours.
fn join_words(words: &Vec<String>) -> (line: String)
    ensures
        line@ == spaced(words.deep_view()),
{
    let mut line = String::new();
    let mut i: usize = 0;
    let ghost all = words.deep_view();
    while i < words.len()
        invariant
            i <= words@.len(),
            all == words.deep_view(),
            line@ == spaced(all.take(i as int)),
        decreases words@.len() - i,
    {
        if i > 0 {
            line.append(" ");
        }
        line.append(&words[i]);
        i = i + 1;
        proof {
            assert(all.take(i as int).drop_last() =~= all.take(i - 1));
            assert(all.take(i as int).last() == words@[i - 1]@);
            if i == 1 {
                assert(all.take(0) =~= Seq::empty());
                assert(line@ =~= words@[0]@);
            }
        }
    }
    proof {
        assert(all.take(i as int) =~= all);
    }
    line
}

/// stderr of a failed command, or a generic message when it printed nothing.
pub fn failure_message(program: &str, args: &Vec<String>, output: &Output) -> (message: String)
    ensures
        message@ == failure(program@, args.deep_view(), output.deep_view()),
{
    let stderr = lossy(&output.stderr);
    let chars = chars_of(&stderr);
    let inner = trimmed(&chars);
    if inner.len() == 0 {
        program.to_owned().concat(" ").concat(&join_words(args)).concat(" failed (").concat(
            &output.status,
        ).concat(")")
    } else {
        string_of(inner)
    }
}

/// What an attempt to run `program` in `dir` gives, whatever the exit code.
pub fn run_status(program: &str, dir: &str, attempt: Attempt) -> (result: Result<Output, CmdError>)
    ensures
        result_view(result) == status_of(program@, dir@, attempt.deep_view()),
{
    match attempt {
        Attempt::NoDirectory => Err(
            CmdError::Failed("directory not found: ".to_owned().concat(dir)),
        ),
        Attempt::NotFound => Err(CmdError::Missing),
        Attempt::NotStarted(reason) => Err(
            CmdError::Failed(
                "could not run ".to_owned().concat(program).concat(": ").concat(&reason),
            ),
        ),
        Attempt::Finished(output) => Ok(output),
    }
}

/// The stdout of `program args...` run in `dir`; a non-zero exit is an error.
pub fn run(program: &str, dir: &str, args: &Vec<String>, attempt: Attempt) -> (result: Result<
    Vec<u8>,
    CmdError,
>)
    ensures
        result_view(result) == stdout_of(program@, dir@, args.deep_view(), attempt.deep_view()),
{
    match run_status(program, dir, attempt) {
        Ok(output) => {
            if output.code == Some(0) {
                proof {
                    assert(output.stdout.deep_view() =~= output.stdout@);
                }
                Ok(output.stdout)
            } else {
                Err(CmdError::Failed(failure_message(program, args, &output)))
            }
        },
        Err(err) => Err(err),
    }
}

} // verus!
