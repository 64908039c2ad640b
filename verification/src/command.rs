//! Command lines: how one is split into a program and its arguments, and
//! what the finished program's exit and output amount to.

use crate::text::{
    blank, is_word, lemma_blank_has_no_token, lemma_tokens_are_words, split_whitespace, texts, tokens,
    whitespace,
};
use vstd::prelude::*;
use vstd::utf8::{decode_utf8, encode_utf8, encode_utf8_decode_utf8, valid_utf8};

verus! {

/// Why a command gave no output to work with.
#[derive(Debug, PartialEq, Eq)]
pub enum CommandError {
    /// The command line holds no program: it is empty or all whitespace.
    EmptyCommand { command: String },
    /// The program ran and reported failure.
    CommandFailed { command: String, stderr: String },
    /// The program's output is not UTF-8 text.
    InvalidOutput { command: String },
}

/// What a `CommandError` stands for.
pub enum CommandFault {
    EmptyCommand { command: Seq<char> },
    CommandFailed { command: Seq<char>, stderr: Seq<char> },
    InvalidOutput { command: Seq<char> },
}

impl View for CommandError {
    type V = CommandFault;

    open spec fn view(&self) -> CommandFault {
        match self {
            CommandError::EmptyCommand { command } => CommandFault::EmptyCommand {
                command: command@,
            },
            CommandError::CommandFailed { command, stderr } => CommandFault::CommandFailed {
                command: command@,
                stderr: stderr@,
            },
            CommandError::InvalidOutput { command } => CommandFault::InvalidOutput {
                command: command@,
            },
        }
    }
}

/// A command line ready to run: the program and its arguments.
#[derive(Debug, PartialEq, Eq)]
pub struct Invocation {
    /// The command line as it was given.
    pub command: String,
    pub program: String,
    pub args: Vec<String>,
}

/// What an `Invocation` stands for.
pub struct InvocationView {
    pub command: Seq<char>,
    pub program: Seq<char>,
    pub args: Seq<Seq<char>>,
}

impl View for Invocation {
    type V = InvocationView;

    open spec fn view(&self) -> InvocationView {
        InvocationView { command: self.command@, program: self.program@, args: texts(self.args@) }
    }
}

/// How a program ended: whether it reported success, and what it wrote.
#[derive(Debug, PartialEq, Eq)]
pub struct Output {
    pub success: bool,
    pub stdout: Vec<u8>,
    pub stderr: Vec<u8>,
}

/// The invocation that `command` asks for: its first token is the program,
/// the others are the arguments. A blank command asks for none.
pub open spec fn invocation(command: Seq<char>) -> Result<InvocationView, CommandFault> {
    let words = tokens(command);
    if words.len() == 0 {
        Err(CommandFault::EmptyCommand { command })
    } else {
        Ok(InvocationView { command, program: words[0], args: words.subrange(1, words.len() as int) })
    }
}

/// What the run of `command` amounts to, given how the program ended: its
/// standard output as text where it reported success, and else a failure
/// that carries its standard error as text.
pub open spec fn outcome(command: Seq<char>, success: bool, stdout: Seq<u8>, stderr: Seq<u8>) -> Result<
    Seq<char>,
    CommandFault,
> {
    if success {
        if valid_utf8(stdout) {
            Ok(decode_utf8(stdout))
        } else {
            Err(CommandFault::InvalidOutput { command })
        }
    } else {
        if valid_utf8(stderr) {
            Err(CommandFault::CommandFailed { command, stderr: decode_utf8(stderr) })
        } else {
            Err(CommandFault::InvalidOutput { command })
        }
    }
}

/// Whether the run of `command` that ended with `output` gave its output as
/// text.
pub open spec fn succeeded(command: Seq<char>, output: Output) -> bool {
    outcome(command, output.success, output.stdout@, output.stderr@) is Ok
}

/// A command is refused as empty exactly if it is blank, and then nothing
/// is there to run.
pub proof fn lemma_blank_command(command: Seq<char>)
    ensures
        blank(command) <==> invocation(command) is Err,
        blank(command) ==> invocation(command) == Err::<InvocationView, CommandFault>(
            CommandFault::EmptyCommand { command },
        ),
{
    lemma_blank_has_no_token(command);
}

/// A program that reports failure gives `CommandFailed` with the text of
/// its standard error, whatever it wrote to its standard output.
pub proof fn lemma_failure_carries_stderr(command: Seq<char>, stdout: Seq<u8>, stderr: Seq<u8>)
    requires
        valid_utf8(stderr),
    ensures
        outcome(command, false, stdout, stderr) == Err::<Seq<char>, CommandFault>(
            CommandFault::CommandFailed { command, stderr: decode_utf8(stderr) },
        ),
{
}

/// A command that starts with a character other than whitespace can be run
/// as it stands.
pub proof fn lemma_command_with_program(command: Seq<char>)
    requires
        command.len() > 0,
        !whitespace(command[0]),
    ensures
        invocation(command) is Ok,
        invocation(command)->Ok_0.command == command,
{
    lemma_blank_has_no_token(command);
}

/// The program and the arguments of an invocation are words: none of them
/// is empty, and none holds whitespace.
pub proof fn lemma_invocation_of_words(command: Seq<char>)
    requires
        invocation(command) is Ok,
    ensures
        is_word(invocation(command)->Ok_0.program),
        forall|i: int|
            0 <= i < invocation(command)->Ok_0.args.len() ==> is_word(
                #[trigger] invocation(command)->Ok_0.args[i],
            ),
{
    lemma_tokens_are_words(command, 0);
    let words = tokens(command);
    let args = invocation(command)->Ok_0.args;
    assert(is_word(words[0]));
    assert forall|i: int| 0 <= i < args.len() implies is_word(#[trigger] args[i]) by {
        assert(args[i] == words[i + 1]);
    }
}

/// `String::from_utf8`, without the reason for a refusal: the string whose
/// UTF-8 encoding is `bytes`, or nothing where `bytes` is no valid UTF-8.
#[verifier::external_body]
fn text_of(bytes: Vec<u8>) -> (text: Option<String>)
    ensures
        text is Some <==> valid_utf8(bytes@),
        text matches Some(s) ==> encode_utf8(s@) == bytes@,
{
    String::from_utf8(bytes).ok()
}

/// Prepares the run of `cmd`: splits it at whitespace into the program and
/// its arguments. There is no quoting, so an argument cannot hold
/// whitespace.
pub fn call(cmd: &str) -> (prepared: Result<Invocation, CommandError>)
    ensures
        match invocation(cmd@) {
            Ok(expected) => prepared matches Ok(found) && found@ == expected,
            Err(fault) => prepared matches Err(error) && error@ == fault,
        },
{
    let mut words = split_whitespace(cmd);
    if words.len() == 0 {
        return Err(CommandError::EmptyCommand { command: String::from_str(cmd) });
    }
    let program = words.remove(0);
    proof {
        let all = tokens(cmd@);
        assert(texts(words@) == all.subrange(1, all.len() as int));
    }
    Ok(Invocation { command: String::from_str(cmd), program, args: words })
}

/// Reads what the program that ran for `command` left behind: its standard
/// output where it reported success, its standard error in a failure where
/// it did not.
pub fn finish(command: &str, output: Output) -> (result: Result<String, CommandError>)
    ensures
        match outcome(command@, output.success, output.stdout@, output.stderr@) {
            Ok(expected) => result matches Ok(text) && text@ == expected,
            Err(fault) => result matches Err(error) && error@ == fault,
        },
{
    let Output { success, stdout, stderr } = output;
    let read = text_of(if success {
        stdout
    } else {
        stderr
    });
    match read {
        Some(text) => {
            proof {
                encode_utf8_decode_utf8(text@);
            }
            if success {
                Ok(text)
            } else {
                Err(CommandError::CommandFailed { command: String::from_str(command), stderr: text })
            }
        },
        None => Err(CommandError::InvalidOutput { command: String::from_str(command) }),
    }
}

} // verus!
