//! Programs that the panels call: what their end means.

use crate::text::{dec, decimal, trim, trimmed};
use vstd::prelude::*;

verus! {

/// A program and its arguments.
#[derive(Debug)]
pub struct ControlCommand {
    pub program: String,
    pub args: Vec<String>,
}

/// The value of a [`ControlCommand`].
pub ghost struct CommandView {
    pub program: Seq<char>,
    pub args: Seq<Seq<char>>,
}

impl View for ControlCommand {
    type V = CommandView;

    open spec fn view(&self) -> CommandView {
        CommandView { program: self.program@, args: crate::text::views(self.args@) }
    }
}

/// A command of a list of words.
pub open spec fn command_of(program: Seq<char>, args: Seq<Seq<char>>) -> CommandView {
    CommandView { program, args }
}

/// A command without arguments.
pub fn command(program: &str) -> (r: ControlCommand)
    ensures
        r@ == command_of(program@, Seq::empty()),
{
    let args: Vec<String> = Vec::new();
    assert(crate::text::views(args@) =~= Seq::<Seq<char>>::empty());
    ControlCommand { program: program.to_owned(), args }
}

impl ControlCommand {
    /// The command with one more argument.
    pub fn arg(self, word: &str) -> (r: ControlCommand)
        ensures
            r@ == command_of(self@.program, self@.args.push(word@)),
    {
        let mut args = self.args;
        let word = word.to_owned();
        proof {
            crate::text::lemma_views_push(args@, word);
        }
        args.push(word);
        ControlCommand { program: self.program, args }
    }
}

/// The value of what a program gave back: its output, or what went wrong.
pub open spec fn result_view(r: Result<String, String>) -> Result<Seq<char>, Seq<char>> {
    match r {
        Ok(text) => Ok(text@),
        Err(text) => Err(text@),
    }
}

/// A message of a program: its name, a colon and the message.
pub open spec fn program_message(program: Seq<char>, message: Seq<char>) -> Seq<char> {
    program + ": "@ + message
}

/// The message of a call that failed.
pub fn call_error(program: &str, error: &str) -> (r: String)
    ensures
        r@ == program_message(program@, error@),
{
    program.to_owned().concat(": ").concat(error)
}

/// The message of a program that did not end in time.
pub fn timeout_error(program: &str, seconds: u64) -> (r: String)
    ensures
        r@ == program_message(
            program@,
            "command timed out after "@ + dec(seconds as nat) + "s"@,
        ),
{
    let text = "command timed out after ".to_owned().concat(decimal(seconds).as_str()).concat("s");
    call_error(program, text.as_str())
}

/// What a program that has ended gave back: its trimmed output, or its trimmed
/// error output, or else again its output as the error.
pub open spec fn outcome_of(
    program: Seq<char>,
    success: bool,
    stdout: Seq<char>,
    stderr: Seq<char>,
) -> Result<Seq<char>, Seq<char>> {
    if success {
        Ok(trimmed(stdout))
    } else if trimmed(stderr).len() == 0 {
        Err(program_message(program, trimmed(stdout)))
    } else {
        Err(program_message(program, trimmed(stderr)))
    }
}

/// What a program that has ended gave back.
pub fn command_outcome(program: &str, success: bool, stdout: &str, stderr: &str) -> (r: Result<
    String,
    String,
>)
    ensures
        result_view(r) == outcome_of(program@, success, stdout@, stderr@),
{
    if success {
        return Ok(trim(stdout));
    }
    let errors = trim(stderr);
    if errors.as_str().is_empty() {
        Err(call_error(program, trim(stdout).as_str()))
    } else {
        Err(call_error(program, errors.as_str()))
    }
}

/// What is said after a command: `done` where it printed nothing, else what it
/// printed, or its error.
pub open spec fn outcome_text(result: Result<Seq<char>, Seq<char>>, done: Seq<char>) -> Seq<char> {
    match result {
        Ok(output) => if output.len() == 0 {
            done
        } else {
            output
        },
        Err(error) => error,
    }
}

/// What is said after a command.
pub fn outcome_message(result: &Result<String, String>, done: &str) -> (r: String)
    ensures
        r@ == outcome_text(result_view(*result), done@),
{
    match result {
        Ok(output) => if output.as_str().is_empty() {
            done.to_owned()
        } else {
            output.clone()
        },
        Err(error) => error.clone(),
    }
}

/// The line above a list: whether the service is missing, what is said, and
/// the details.
#[derive(Debug)]
pub struct StatusLine {
    pub unavailable: bool,
    pub text: String,
    pub details: Option<String>,
}

/// The value of a [`StatusLine`].
pub ghost struct StatusView {
    pub unavailable: bool,
    pub text: Seq<char>,
    pub details: Option<Seq<char>>,
}

impl View for StatusLine {
    type V = StatusView;

    open spec fn view(&self) -> StatusView {
        StatusView {
            unavailable: self.unavailable,
            text: self.text@,
            details: crate::text::opt_view(self.details),
        }
    }
}

/// The line where a service is missing.
pub fn unavailable(text: &str, error: &String) -> (r: StatusLine)
    ensures
        r@ == (StatusView { unavailable: true, text: text@, details: Some(error@) }),
{
    StatusLine { unavailable: true, text: text.to_owned(), details: Some(error.clone()) }
}

/// A plain line.
pub fn status(text: &str) -> (r: StatusLine)
    ensures
        r@ == (StatusView { unavailable: false, text: text@, details: None }),
{
    StatusLine { unavailable: false, text: text.to_owned(), details: None }
}

/// A program that succeeds has said what it wrote, whatever it complained of;
/// one that fails is named, with its complaint, or with what it wrote where it
/// did not complain.
pub proof fn law_outcome(
    program: Seq<char>,
    stdout: Seq<char>,
    stderr: Seq<char>,
    other: Seq<char>,
)
    ensures
        outcome_of(program, true, stdout, stderr) == Ok::<Seq<char>, Seq<char>>(trimmed(stdout)),
        outcome_of(program, true, stdout, stderr) == outcome_of(program, true, stdout, other),
        outcome_of(program, false, stdout, stderr) is Err,
        trimmed(stderr).len() > 0 ==> outcome_of(program, false, stdout, stderr) == Err::<
            Seq<char>,
            Seq<char>,
        >(program + ": "@ + trimmed(stderr)),
        trimmed(stderr).len() == 0 ==> outcome_of(program, false, stdout, stderr) == Err::<
            Seq<char>,
            Seq<char>,
        >(program + ": "@ + trimmed(stdout)),
{
}

/// What is said of an error is the error; of a success, what the program said,
/// where it said anything.
pub proof fn law_outcome_text(output: Seq<char>, done: Seq<char>, error: Seq<char>)
    ensures
        outcome_text(Err(error), done) == error,
        output.len() > 0 ==> outcome_text(Ok(output), done) == output,
        outcome_text(Ok(Seq::empty()), done) == done,
{
}

} // verus!
