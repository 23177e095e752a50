//! One run of the program: a command is applied to the list, and the caller
//! is told what to show and whether the list has to be written out.

use vstd::prelude::*;
use vstd::string::StringExecFns;
use crate::decimal::{decimal, decimal_text};
use crate::error::TodoError;
use crate::index::{parse_position, parsed_usize};
use crate::listing::{render, rendered, texts};
use crate::store::{
    add_task, complete, delete_completed, has_completed, lemma_complete_is_idempotent,
    lemma_open_tasks_holds_no_completed, open_tasks, with_added, with_completed, Completion,
};
use crate::task::{model, Task, TaskView};

verus! {

/// What the user asked for.
#[derive(Debug, PartialEq, Eq)]
pub enum Command {
    /// Add a task with this description.
    Add(String),
    /// Complete the task at the one-based position that this text gives.
    Complete(String),
    /// Remove the completed tasks.
    DeleteCompleted,
    /// Show the tasks.
    List,
    /// No command was given.
    NoCommand,
}

/// The mathematical value of a [`Command`].
pub ghost enum CommandView {
    Add(Seq<char>),
    Complete(Seq<char>),
    DeleteCompleted,
    List,
    NoCommand,
}

impl View for Command {
    type V = CommandView;

    open spec fn view(&self) -> CommandView {
        match self {
            Command::Add(description) => CommandView::Add(description@),
            Command::Complete(text) => CommandView::Complete(text@),
            Command::DeleteCompleted => CommandView::DeleteCompleted,
            Command::List => CommandView::List,
            Command::NoCommand => CommandView::NoCommand,
        }
    }
}

/// What a run tells its caller.
#[derive(Debug, PartialEq, Eq)]
pub struct Report {
    /// The lines to show, from top to bottom.
    pub lines: Vec<String>,
    /// Whether the command failed: the lines then belong on the error stream.
    pub failed: bool,
    /// Whether the list changed and has to be written out.
    pub save: bool,
}

/// The mathematical value of a [`Report`].
pub ghost struct ReportView {
    pub lines: Seq<Seq<char>>,
    pub failed: bool,
    pub save: bool,
}

impl View for Report {
    type V = ReportView;

    open spec fn view(&self) -> ReportView {
        ReportView { lines: texts(self.lines@), failed: self.failed, save: self.save }
    }
}

/// The position that a `Complete` command names in a list of `len` tasks, or
/// the reason why it names none.
pub open spec fn target(len: nat, text: Seq<char>) -> Result<int, TodoError> {
    match parsed_usize(text) {
        None => Err(TodoError::InvalidIndex),
        Some(position) => if 1 <= position <= len {
            Ok(position - 1)
        } else {
            Err(TodoError::IndexOutOfBounds)
        },
    }
}

/// The list after `command` has been applied to the list `s`.
pub open spec fn state_after(s: Seq<TaskView>, command: CommandView) -> Seq<TaskView> {
    match command {
        CommandView::Add(description) => with_added(s, description),
        CommandView::Complete(text) => match target(s.len(), text) {
            Ok(index) => with_completed(s, index),
            Err(_) => s,
        },
        CommandView::DeleteCompleted => open_tasks(s),
        CommandView::List => s,
        CommandView::NoCommand => s,
    }
}

/// A report of success with these lines.
pub open spec fn shown(lines: Seq<Seq<char>>, save: bool) -> ReportView {
    ReportView { lines, failed: false, save }
}

/// A report of failure with this single line.
pub open spec fn refused(line: Seq<char>) -> ReportView {
    ReportView { lines: seq![line], failed: true, save: false }
}

/// What is reported when `command` is applied to the list `s`.
pub open spec fn report_of(s: Seq<TaskView>, command: CommandView) -> ReportView {
    match command {
        CommandView::Add(description) => shown(seq!["Added task: "@ + description], true),
        CommandView::Complete(text) => match target(s.len(), text) {
            Err(e) => refused("Error completing task: "@ + e.message_text()),
            Ok(index) => {
                let done = "Completed task: "@ + s[index].description;
                if s[index].completed {
                    shown(seq!["Task already completed"@, done], false)
                } else {
                    shown(seq![done], true)
                }
            },
        },
        CommandView::DeleteCompleted => if has_completed(s) {
            shown(
                seq![
                    "Deleted "@ + decimal_text((s.len() - open_tasks(s).len()) as nat)
                        + " completed tasks"@,
                ],
                true,
            )
        } else {
            refused(
                "Error deleting completed tasks: "@ + TodoError::NothingToDelete.message_text(),
            )
        },
        CommandView::List => shown(rendered(s), false),
        CommandView::NoCommand => shown(
            seq!["No subcommand was used, use -h, --help to see available subcommands"@],
            false,
        ),
    }
}

/// A run that does not ask for the list to be written out has left it as it
/// was.
pub proof fn lemma_unsaved_is_unchanged(s: Seq<TaskView>, command: CommandView)
    ensures
        !report_of(s, command).save ==> state_after(s, command) == s,
        report_of(s, command).failed ==> !report_of(s, command).save,
{
    match command {
        CommandView::Complete(text) => {
            if let Ok(index) = target(s.len(), text) {
                lemma_complete_is_idempotent(s, index);
            }
        },
        CommandView::DeleteCompleted => {
            lemma_open_tasks_holds_no_completed(s);
        },
        _ => {},
    }
}

/// Completing fails exactly when the text names no position from 1 to the
/// number of tasks, and a failed attempt leaves the list as it was.
pub proof fn lemma_complete_bounds(s: Seq<TaskView>, text: Seq<char>)
    ensures
        report_of(s, CommandView::Complete(text)).failed <==> !(parsed_usize(text) matches Some(
            position,
        ) && 1 <= position <= s.len()),
        report_of(s, CommandView::Complete(text)).failed ==> state_after(
            s,
            CommandView::Complete(text),
        ) == s,
{
}

/// Completing the same position a second time leaves the list as the first
/// time left it, and asks for nothing to be written out.
pub proof fn lemma_complete_twice(s: Seq<TaskView>, text: Seq<char>)
    ensures
        ({
            let command = CommandView::Complete(text);
            let once = state_after(s, command);
            &&& state_after(once, command) == once
            &&& !report_of(once, command).save
            &&& report_of(once, command).failed == report_of(s, command).failed
        }),
{
    if let Ok(index) = target(s.len(), text) {
        lemma_complete_is_idempotent(s, index);
    }
}

/// After the completed tasks have been removed none is left, so removing them
/// once more fails and changes nothing.
pub proof fn lemma_delete_twice(s: Seq<TaskView>)
    ensures
        ({
            let once = state_after(s, CommandView::DeleteCompleted);
            &&& !has_completed(once)
            &&& report_of(once, CommandView::DeleteCompleted).failed
            &&& state_after(once, CommandView::DeleteCompleted) == once
        }),
{
    lemma_open_tasks_holds_no_completed(s);
    lemma_open_tasks_holds_no_completed(open_tasks(s));
}

fn failure(prefix: &str, error: TodoError) -> (report: Report)
    ensures
        report@ == refused(prefix@ + error.message_text()),
{
    let mut line = String::from_str(prefix);
    line.append(error.message().as_str());
    let mut lines: Vec<String> = Vec::new();
    lines.push(line);
    assert(texts(lines@) =~= seq![prefix@ + error.message_text()]);
    Report { lines, failed: true, save: false }
}

fn run_complete(tasks: &mut Vec<Task>, text: &str) -> (report: Report)
    ensures
        model(final(tasks)@) == state_after(model(old(tasks)@), CommandView::Complete(text@)),
        report@ == report_of(model(old(tasks)@), CommandView::Complete(text@)),
{
    let position: usize = match parse_position(text) {
        Ok(position) => position,
        Err(e) => {
            return failure("Error completing task: ", e);
        },
    };
    match complete(tasks, position) {
        Err(e) => failure("Error completing task: ", e),
        Ok(completion) => {
            let mut lines: Vec<String> = Vec::new();
            let mut done = String::from_str("Completed task: ");
            done.append(tasks[position - 1].description.as_str());
            assert(model(tasks@)[position - 1] == tasks@[position - 1]@);
            assert(model(old(tasks)@)[position - 1] == old(tasks)@[position - 1]@);
            match completion {
                Completion::AlreadyCompleted => {
                    lines.push("Task already completed".to_owned());
                    lines.push(done);
                    assert(texts(lines@) =~= seq!["Task already completed"@, done@]);
                    Report { lines, failed: false, save: false }
                },
                Completion::Marked => {
                    lines.push(done);
                    assert(texts(lines@) =~= seq![done@]);
                    Report { lines, failed: false, save: true }
                },
            }
        },
    }
}

/// Applies `command` to the list and says what to show and whether to write
/// the list out.
pub fn run(tasks: &mut Vec<Task>, command: &Command) -> (report: Report)
    ensures
        model(final(tasks)@) == state_after(model(old(tasks)@), command@),
        report@ == report_of(model(old(tasks)@), command@),
{
    match command {
        Command::Add(description) => {
            let _ = add_task(tasks, description.as_str());
            let mut line = String::from_str("Added task: ");
            line.append(description.as_str());
            let mut lines: Vec<String> = Vec::new();
            lines.push(line);
            assert(texts(lines@) =~= seq!["Added task: "@ + description@]);
            Report { lines, failed: false, save: true }
        },
        Command::Complete(text) => run_complete(tasks, text.as_str()),
        Command::DeleteCompleted => match delete_completed(tasks) {
            Err(e) => failure("Error deleting completed tasks: ", e),
            Ok(removed) => {
                let mut line = String::from_str("Deleted ");
                line.append(decimal(removed).as_str());
                line.append(" completed tasks");
                let mut lines: Vec<String> = Vec::new();
                lines.push(line);
                assert(texts(lines@) =~= seq![line@]);
                Report { lines, failed: false, save: true }
            },
        },
        Command::List => Report { lines: render(tasks), failed: false, save: false },
        Command::NoCommand => {
            let mut lines: Vec<String> = Vec::new();
            lines.push(
                "No subcommand was used, use -h, --help to see available subcommands".to_owned(),
            );
            assert(texts(lines@) =~= report_of(model(old(tasks)@), command@).lines);
            Report { lines, failed: false, save: false }
        },
    }
}

} // verus!
