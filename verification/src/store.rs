//! The operations that change the list.

use vstd::prelude::*;
use crate::error::TodoError;
use crate::task::{model, Task, TaskView};

verus! {

/// What [`complete_task`] did to the task it was pointed at.
#[derive(Debug, Clone, Copy, PartialEq, Eq, Structural)]
pub enum Completion {
    /// The task was open and is now completed: the list changed.
    Marked,
    /// The task was completed already: the list is as it was.
    AlreadyCompleted,
}

/// The list to start from: the tasks that were read, or an empty list where
/// nothing was there to read or what was there could not be understood.
pub fn tasks_or_empty(read: Option<Vec<Task>>) -> (tasks: Vec<Task>)
    ensures
        match read {
            Some(found) => tasks == found,
            None => tasks@.len() == 0,
        },
{
    match read {
        Some(found) => found,
        None => Vec::new(),
    }
}

/// The list `s` with one more open task at its end.
pub open spec fn with_added(s: Seq<TaskView>, description: Seq<char>) -> Seq<TaskView> {
    s.push(TaskView { description, completed: false })
}

/// Adding appends: the list grows by one, the tasks that were there stay as
/// they were and where they were, and the new task stands last and is open.
pub proof fn lemma_add_appends(s: Seq<TaskView>, description: Seq<char>)
    ensures
        with_added(s, description).len() == s.len() + 1,
        with_added(s, description).take(s.len() as int) == s,
        with_added(s, description).last() == (TaskView { description, completed: false }),
        with_added(s, description) == s + seq![TaskView { description, completed: false }],
{
    assert(with_added(s, description).take(s.len() as int) =~= s);
    assert(with_added(s, description) =~= s + seq![TaskView { description, completed: false }]);
}

/// Appends an open task with the given description to the end of the list.
/// This never fails.
pub fn add_task(tasks: &mut Vec<Task>, description: &str) -> (result: Result<(), TodoError>)
    ensures
        result is Ok,
        model(final(tasks)@) == with_added(model(old(tasks)@), description@),
{
    tasks.push(Task::new(description));
    assert(model(tasks@) =~= with_added(model(old(tasks)@), description@));
    Ok(())
}

/// The list `s` with the task at `index` completed, everything else as it was.
pub open spec fn with_completed(s: Seq<TaskView>, index: int) -> Seq<TaskView>
    recommends
        0 <= index < s.len(),
{
    s.update(index, TaskView { description: s[index].description, completed: true })
}

/// Completing a task changes nothing but that task's flag, and completing it
/// a second time changes nothing at all.
pub proof fn lemma_complete_is_idempotent(s: Seq<TaskView>, index: int)
    requires
        0 <= index < s.len(),
    ensures
        with_completed(s, index).len() == s.len(),
        with_completed(s, index)[index].completed,
        with_completed(s, index)[index].description == s[index].description,
        forall|j: int|
            0 <= j < s.len() && j != index ==> (#[trigger] with_completed(s, index)[j]) == s[j],
        with_completed(with_completed(s, index), index) == with_completed(s, index),
        s[index].completed ==> with_completed(s, index) == s,
{
    assert(with_completed(with_completed(s, index), index) =~= with_completed(s, index));
    if s[index].completed {
        assert(with_completed(s, index) =~= s);
    }
}

/// Marks the task at the zero-based `index` as completed.
///
/// Fails, and leaves the list as it was, exactly when `index` names no task.
/// Says [`Completion::AlreadyCompleted`] exactly when the task was completed
/// before the call; the list is then unchanged, so there is nothing to write
/// out.
pub fn complete_task(tasks: &mut Vec<Task>, index: usize) -> (result: Result<
    Completion,
    TodoError,
>)
    ensures
        match result {
            Ok(done) => {
                &&& index < model(old(tasks)@).len()
                &&& model(final(tasks)@) == with_completed(model(old(tasks)@), index as int)
                &&& done == Completion::AlreadyCompleted <==> model(
                    old(tasks)@,
                )[index as int].completed
                &&& done == Completion::AlreadyCompleted ==> model(final(tasks)@) == model(
                    old(tasks)@,
                )
            },
            Err(e) => {
                &&& index >= model(old(tasks)@).len()
                &&& e == TodoError::IndexOutOfBounds
                &&& model(final(tasks)@) == model(old(tasks)@)
            },
        },
{
    if index >= tasks.len() {
        return Err(TodoError::IndexOutOfBounds);
    }
    if tasks[index].completed {
        assert(model(tasks@) =~= with_completed(model(tasks@), index as int));
        return Ok(Completion::AlreadyCompleted);
    }
    tasks[index].completed = true;
    assert(model(tasks@) =~= with_completed(model(old(tasks)@), index as int));
    Ok(Completion::Marked)
}

/// Marks the task at the one-based `position` as completed: the first task of
/// the list has position 1.
///
/// Fails with [`TodoError::IndexOutOfBounds`] exactly when `position` is zero
/// or greater than the number of tasks; otherwise it does what
/// [`complete_task`] does at `position - 1`.
pub fn complete(tasks: &mut Vec<Task>, position: usize) -> (result: Result<Completion, TodoError>)
    ensures
        result is Ok <==> 1 <= position <= model(old(tasks)@).len(),
        match result {
            Ok(done) => {
                &&& model(final(tasks)@) == with_completed(model(old(tasks)@), position - 1)
                &&& done == Completion::AlreadyCompleted <==> model(old(tasks)@)[position
                    - 1].completed
                &&& done == Completion::AlreadyCompleted ==> model(final(tasks)@) == model(
                    old(tasks)@,
                )
            },
            Err(e) => e == TodoError::IndexOutOfBounds && model(final(tasks)@) == model(
                old(tasks)@,
            ),
        },
{
    if position == 0 {
        return Err(TodoError::IndexOutOfBounds);
    }
    complete_task(tasks, position - 1)
}

/// The open tasks of `s`, in the order in which they stand in `s`.
pub open spec fn open_tasks(s: Seq<TaskView>) -> Seq<TaskView> {
    s.filter(|t: TaskView| !t.completed)
}

/// Whether some task of `s` is completed.
pub open spec fn has_completed(s: Seq<TaskView>) -> bool {
    exists|i: int| 0 <= i < s.len() && (#[trigger] s[i]).completed
}

/// Filtering by a predicate keeps exactly one more item when the last one
/// meets the predicate, and nothing more when it does not.
proof fn lemma_open_tasks_push(s: Seq<TaskView>, t: TaskView)
    ensures
        open_tasks(s.push(t)) == if t.completed {
            open_tasks(s)
        } else {
            open_tasks(s).push(t)
        },
{
    reveal(Seq::filter);
    assert(s.push(t).drop_last() =~= s);
}

/// Removing the completed tasks leaves none, and shortens the list exactly
/// when there was one.
pub proof fn lemma_open_tasks_holds_no_completed(s: Seq<TaskView>)
    ensures
        !has_completed(open_tasks(s)),
        open_tasks(s).len() <= s.len(),
        open_tasks(s).len() == s.len() <==> !has_completed(s),
        !has_completed(s) ==> open_tasks(s) == s,
    decreases s.len(),
{
    reveal(Seq::filter);
    if s.len() > 0 {
        let front = s.drop_last();
        lemma_open_tasks_holds_no_completed(front);
        assert(s =~= front.push(s.last()));
        lemma_open_tasks_push(front, s.last());
        if has_completed(front) {
            let i = choose|i: int| 0 <= i < front.len() && (#[trigger] front[i]).completed;
            assert(s[i].completed);
        }
        if has_completed(s) && !s.last().completed {
            let i = choose|i: int| 0 <= i < s.len() && (#[trigger] s[i]).completed;
            assert(front[i].completed);
        }
        if !has_completed(s) {
            assert(!s[s.len() - 1].completed);
            assert(open_tasks(s) =~= s);
        }
    } else {
        assert(open_tasks(s) =~= s);
    }
}

/// Removing the completed tasks keeps the order of the others: what is left
/// of a list is what is left of its front part, followed by what is left of
/// its back part.
pub proof fn lemma_open_tasks_keep_order(front: Seq<TaskView>, back: Seq<TaskView>)
    ensures
        open_tasks(front + back) == open_tasks(front) + open_tasks(back),
{
    Seq::filter_distributes_over_add(front, back, |t: TaskView| !t.completed);
}

/// Removes every completed task; the open ones keep their order.
///
/// Fails with [`TodoError::NothingToDelete`], and leaves the list as it was,
/// exactly when no task was completed. Otherwise returns how many tasks were
/// removed.
pub fn delete_completed(tasks: &mut Vec<Task>) -> (result: Result<usize, TodoError>)
    ensures
        model(final(tasks)@) == open_tasks(model(old(tasks)@)),
        !has_completed(model(final(tasks)@)),
        match result {
            Ok(removed) => has_completed(model(old(tasks)@)) && removed == model(
                old(tasks)@,
            ).len() - model(final(tasks)@).len(),
            Err(e) => e == TodoError::NothingToDelete && !has_completed(model(old(tasks)@))
                && model(final(tasks)@) == model(old(tasks)@),
        },
{
    let ghost before = model(tasks@);
    let mut kept: Vec<Task> = Vec::new();
    let mut i: usize = 0;
    proof {
        reveal(Seq::filter);
        assert(before.take(0) =~= Seq::<TaskView>::empty());
        assert(model(kept@) =~= open_tasks(before.take(0)));
    }
    while i < tasks.len()
        invariant
            i <= tasks@.len(),
            before == model(tasks@),
            model(kept@) == open_tasks(before.take(i as int)),
        decreases tasks@.len() - i,
    {
        proof {
            assert(before.take(i + 1) =~= before.take(i as int).push(before[i as int]));
            lemma_open_tasks_push(before.take(i as int), before[i as int]);
        }
        if !tasks[i].completed {
            let ghost kept_before = model(kept@);
            kept.push(Task { description: tasks[i].description.clone(), completed: false });
            assert(model(kept@) =~= kept_before.push(before[i as int]));
        }
        i += 1;
    }
    proof {
        assert(before.take(i as int) =~= before);
        lemma_open_tasks_holds_no_completed(before);
        assert(model(kept@).len() == kept@.len());
        assert(before.len() == tasks@.len());
    }
    let removed: usize = tasks.len() - kept.len();
    if removed == 0 {
        return Err(TodoError::NothingToDelete);
    }
    *tasks = kept;
    Ok(removed)
}

} // verus!
