//! Command-line arguments, the choice of run mode they make, and the reading
//! of one line typed at the interactive prompt.

use vstd::prelude::*;
use vstd::string::StringExecFns;

use crate::text::{trim, trimmed};

verus! {

/// Command-line arguments of the engram program.
#[derive(Debug)]
pub struct Args {
    /// Print the full reasoning trace for each answer.
    pub explain: bool,
    /// Path to the knowledge directory (default: `knowledge`).
    pub knowledge_dir: String,
    /// Query to answer in single-shot mode; `None` enters interactive mode.
    pub query: Option<String>,
    /// Optional sub-command.
    pub command: Option<Command>,
}

/// Optional sub-commands available alongside single-query and interactive modes.
#[derive(Debug, Clone, Copy, PartialEq, Eq, Structural)]
pub enum Command {
    /// Show the last `n` sessions from history (default: 10).
    History { n: usize },
    /// List all unresolved weak memory entries.
    Weak,
    /// List all discovered latent nodes.
    Latent,
    /// List all provisional (unconfirmed) nodes.
    Provisional,
    /// Show bias audit: dominant edges and staleness report.
    Audit,
}

/// What a run of the program does.
#[derive(Debug, Clone, Copy, PartialEq, Eq, Structural)]
pub enum RunMode {
    /// Run the given sub-command.
    Subcommand(Command),
    /// Answer the single query given on the command line.
    SingleQuery,
    /// Read queries at an interactive prompt.
    Interactive,
}

impl Args {
    /// The run mode the arguments select: a sub-command when one is given,
    /// else a single query when one is given, else the interactive prompt.
    pub open spec fn spec_run_mode(&self) -> RunMode {
        match self.command {
            Some(c) => RunMode::Subcommand(c),
            None => if self.query is Some {
                RunMode::SingleQuery
            } else {
                RunMode::Interactive
            },
        }
    }

    /// The run mode the arguments select: a sub-command takes precedence over
    /// a query, and without either the prompt is interactive.
    pub fn run_mode(&self) -> (m: RunMode)
        ensures
            m == self.spec_run_mode(),
    {
        match self.command {
            Some(c) => RunMode::Subcommand(c),
            None => if self.query.is_some() {
                RunMode::SingleQuery
            } else {
                RunMode::Interactive
            },
        }
    }
}

/// What a non-blank line typed at the prompt asks for.
#[derive(Debug, Clone, Copy, PartialEq, Eq, Structural)]
pub enum PromptAction {
    /// Leave the prompt (`exit`, `quit`, `:q`).
    Exit,
    /// Show the help text (`help`, `:help`).
    Help,
    /// Answer the line as a query.
    Query,
}

/// The action a trimmed, non-blank prompt line asks for.
pub open spec fn spec_prompt_action(input: Seq<char>) -> PromptAction {
    if input == "exit"@ || input == "quit"@ || input == ":q"@ {
        PromptAction::Exit
    } else if input == "help"@ || input == ":help"@ {
        PromptAction::Help
    } else {
        PromptAction::Query
    }
}

/// Whether the text equals the word.
fn is_word(text: &String, word: &str) -> (r: bool)
    ensures
        r == (text@ == word@),
{
    let w = String::from_str(word);
    *text == w
}

/// Read one prompt line: `None` when it is blank after trimming, else the
/// trimmed input together with the action it asks for.
pub fn read_prompt_line(line: &str) -> (r: Option<(String, PromptAction)>)
    ensures
        r is None <==> trimmed(line@).len() == 0,
        r matches Some((input, action)) ==> input@ == trimmed(line@) && action
            == spec_prompt_action(trimmed(line@)),
{
    let t = trim(line);
    if t.is_empty() {
        return None;
    }
    let input = String::from_str(t);
    let action = if is_word(&input, "exit") || is_word(&input, "quit") || is_word(&input, ":q") {
        PromptAction::Exit
    } else if is_word(&input, "help") || is_word(&input, ":help") {
        PromptAction::Help
    } else {
        PromptAction::Query
    };
    Some((input, action))
}

} // verus!
