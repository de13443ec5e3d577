//! What holds of the outcome of every command.
use vstd::prelude::*;

use super::{spaced, status_of, stdout_of, AttemptView, CmdErrorView, OutputView};
use crate::text::{trim, utf8_lossy};

verus! {

/// A command gives its stdout exactly when it exits with 0. Otherwise it gives a reason: that the
/// program is missing or the directory is, why it could not be started, or what it printed on stderr,
/// trimmed; where that is nothing, the command itself and its exit status.
pub proof fn a_command_gives_its_output_or_a_reason(
    program: Seq<char>,
    dir: Seq<char>,
    args: Seq<Seq<char>>,
    attempt: AttemptView,
)
    ensures
        ({
            let result = stdout_of(program, dir, args, attempt);
            &&& result is Ok <==> (attempt is Finished && attempt->Finished_0.code == Some(0i32))
            &&& attempt is NotFound ==> result == Err::<Seq<u8>, CmdErrorView>(
                CmdErrorView::Missing,
            )
            &&& attempt is NoDirectory ==> result == Err::<Seq<u8>, CmdErrorView>(
                CmdErrorView::Failed("directory not found: "@ + dir),
            )
            &&& attempt is NotStarted ==> result == Err::<Seq<u8>, CmdErrorView>(
                CmdErrorView::Failed(
                    "could not run "@ + program + ": "@ + attempt->NotStarted_0,
                ),
            )
            &&& attempt is Finished ==> {
                let output = attempt->Finished_0;
                let said = trim(utf8_lossy(output.stderr));
                &&& result is Ok ==> result->Ok_0 == output.stdout
                &&& result is Err && said.len() > 0 ==> result->Err_0 == CmdErrorView::Failed(said)
                &&& result is Err && said.len() == 0 ==> result->Err_0 == CmdErrorView::Failed(
                    program + " "@ + spaced(args) + " failed ("@ + output.status + ")"@,
                )
            }
        }),
        attempt is Finished ==> status_of(program, dir, attempt) == Ok::<OutputView, CmdErrorView>(
            attempt->Finished_0,
        ),
        attempt is NotFound ==> status_of(program, dir, attempt) == Err::<OutputView, CmdErrorView>(
            CmdErrorView::Missing,
        ),
        !(attempt is Finished) ==> status_of(program, dir, attempt) is Err,
{
}

/// The words of a command line have one space between neighbours.
pub proof fn words_have_one_space_between(words: Seq<Seq<char>>, word: Seq<char>)
    ensures
        spaced(Seq::empty()) == Seq::<char>::empty(),
        words.len() == 0 ==> spaced(words.push(word)) == word,
        words.len() > 0 ==> spaced(words.push(word)) == spaced(words) + " "@ + word,
{
    assert(words.push(word).drop_last() =~= words);
}

} // verus!
