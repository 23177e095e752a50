//! The grouped listing of the tasks: the completed ones first, then the open
//! ones, each under the position it has in the whole list.

use vstd::prelude::*;
use vstd::string::StringExecFns;
use crate::decimal::{decimal, decimal_text};
use crate::store::open_tasks;
use crate::task::{model, Task, TaskView};

verus! {

/// One line of a listing: a task's description under its one-based position
/// in the whole list.
#[derive(Debug, PartialEq, Eq)]
pub struct Entry {
    pub position: usize,
    pub description: String,
}

/// The mathematical value of an [`Entry`].
pub ghost struct EntryView {
    pub position: nat,
    pub description: Seq<char>,
}

impl View for Entry {
    type V = EntryView;

    open spec fn view(&self) -> EntryView {
        EntryView { position: self.position as nat, description: self.description@ }
    }
}

/// The sequence of entry values that a vector of entries stands for.
pub open spec fn entries(group: Seq<Entry>) -> Seq<EntryView> {
    Seq::new(group.len(), |i: int| group[i]@)
}

/// The tasks of a non-empty list in two groups.
#[derive(Debug, PartialEq, Eq)]
pub struct Listing {
    pub completed: Vec<Entry>,
    pub uncompleted: Vec<Entry>,
}

/// The tasks of `s` whose flag is `done`, in the order of `s`, each with the
/// position that it has in `s`, counted from 1.
pub open spec fn group(s: Seq<TaskView>, done: bool) -> Seq<EntryView>
    decreases s.len(),
{
    if s.len() == 0 {
        Seq::empty()
    } else {
        let front = group(s.drop_last(), done);
        if s.last().completed == done {
            front.push(EntryView { position: s.len(), description: s.last().description })
        } else {
            front
        }
    }
}

/// Every task stands in exactly one of the two groups, under its own position
/// in the list, and within a group the positions rise.
pub proof fn lemma_group_positions(s: Seq<TaskView>, done: bool)
    ensures
        group(s, true).len() + group(s, false).len() == s.len(),
        forall|k: int|
            0 <= k < group(s, done).len() ==> {
                let e = #[trigger] group(s, done)[k];
                &&& 1 <= e.position <= s.len()
                &&& s[e.position - 1].completed == done
                &&& s[e.position - 1].description == e.description
            },
        forall|j: int, k: int|
            0 <= j < k < group(s, done).len() ==> (#[trigger] group(s, done)[j]).position < (
            #[trigger] group(s, done)[k]).position,
        forall|i: int|
            0 <= i < s.len() && s[i].completed == done ==> group(s, done).contains(
                EntryView { position: (i + 1) as nat, description: (#[trigger] s[i]).description },
            ),
    decreases s.len(),
{
    if s.len() > 0 {
        let front = s.drop_last();
        lemma_group_positions(front, done);
        lemma_group_positions(front, !done);
        let g = group(s, done);
        let f = group(front, done);
        assert forall|i: int| 0 <= i < s.len() && s[i].completed == done implies g.contains(
            EntryView { position: (i + 1) as nat, description: (#[trigger] s[i]).description },
        ) by {
            let e = EntryView { position: (i + 1) as nat, description: s[i].description };
            if i < front.len() {
                assert(front[i] == s[i]);
                assert(f.contains(e));
                let k = choose|k: int| 0 <= k < f.len() && f[k] == e;
                assert(g[k] == e);
            } else {
                assert(g[g.len() - 1] == e);
            }
        }
    }
}

/// The tasks that stay when the completed ones are removed are those of the
/// open group, one for one: each stays as it was, and they follow one another
/// as their positions in the list did.
pub proof fn lemma_open_tasks_follow_positions(s: Seq<TaskView>)
    ensures
        open_tasks(s).len() == group(s, false).len(),
        forall|k: int|
            0 <= k < open_tasks(s).len() ==> {
                let position = group(s, false)[k].position;
                &&& 1 <= position <= s.len()
                &&& #[trigger] open_tasks(s)[k] == s[position - 1]
            },
        forall|j: int, k: int|
            0 <= j < k < open_tasks(s).len() ==> (#[trigger] group(s, false)[j]).position < (
            #[trigger] group(s, false)[k]).position,
    decreases s.len(),
{
    reveal(Seq::filter);
    lemma_group_positions(s, false);
    if s.len() > 0 {
        lemma_open_tasks_follow_positions(s.drop_last());
    }
}

/// Groups the tasks for display: the completed ones, then the open ones, each
/// group in the order of the list and each task under its position in the
/// whole list. An empty list has no listing.
pub fn list_tasks(tasks: &Vec<Task>) -> (listing: Option<Listing>)
    ensures
        listing is None <==> model(tasks@).len() == 0,
        listing matches Some(l) ==> entries(l.completed@) == group(model(tasks@), true) && entries(
            l.uncompleted@,
        ) == group(model(tasks@), false),
{
    if tasks.len() == 0 {
        return None;
    }
    let ghost s = model(tasks@);
    let mut completed: Vec<Entry> = Vec::new();
    let mut uncompleted: Vec<Entry> = Vec::new();
    let mut i: usize = 0;
    proof {
        assert(s.take(0) =~= Seq::<TaskView>::empty());
        assert(entries(completed@) =~= group(s.take(0), true));
        assert(entries(uncompleted@) =~= group(s.take(0), false));
    }
    while i < tasks.len()
        invariant
            i <= tasks@.len(),
            s == model(tasks@),
            entries(completed@) == group(s.take(i as int), true),
            entries(uncompleted@) == group(s.take(i as int), false),
        decreases tasks@.len() - i,
    {
        proof {
            assert(s.take(i + 1).drop_last() =~= s.take(i as int));
        }
        let entry = Entry { position: i + 1, description: tasks[i].description.clone() };
        if tasks[i].completed {
            let ghost before = entries(completed@);
            completed.push(entry);
            assert(entries(completed@) =~= before.push(entry@));
        } else {
            let ghost before = entries(uncompleted@);
            uncompleted.push(entry);
            assert(entries(uncompleted@) =~= before.push(entry@));
        }
        i += 1;
    }
    proof {
        assert(s.take(i as int) =~= s);
    }
    Some(Listing { completed, uncompleted })
}

/// The line shown for an entry: its position, a mark in square brackets
/// (`x` for a completed task, a blank for an open one), and its description.
pub open spec fn line_text(entry: EntryView, done: bool) -> Seq<char> {
    decimal_text(entry.position) + (if done {
        ". [x] "@
    } else {
        ". [ ] "@
    }) + entry.description
}

/// The lines of one group, in its order.
pub open spec fn group_lines(group: Seq<EntryView>, done: bool) -> Seq<Seq<char>> {
    Seq::new(group.len(), |i: int| line_text(group[i], done))
}

/// What is shown for the list `s`: a single line for an empty list; otherwise
/// a heading and the completed tasks, then a heading and the open tasks.
pub open spec fn rendered(s: Seq<TaskView>) -> Seq<Seq<char>> {
    if s.len() == 0 {
        seq!["No tasks in the todo list"@]
    } else {
        seq!["Completed tasks:"@] + group_lines(group(s, true), true) + seq![
            "Uncompleted tasks:"@,
        ] + group_lines(group(s, false), false)
    }
}

/// The texts that a vector of strings holds.
pub open spec fn texts(lines: Seq<String>) -> Seq<Seq<char>> {
    Seq::new(lines.len(), |i: int| lines[i]@)
}

impl Entry {
    /// The line shown for this entry in the group of completed tasks
    /// (`done`) or in that of the open ones.
    pub fn line(&self, done: bool) -> (text: String)
        ensures
            text@ == line_text(self@, done),
    {
        let mut text = decimal(self.position);
        text.append(if done { ". [x] " } else { ". [ ] " });
        text.append(self.description.as_str());
        text
    }
}

fn push_group_lines(lines: &mut Vec<String>, group: &Vec<Entry>, done: bool)
    ensures
        texts(final(lines)@) == texts(old(lines)@) + group_lines(entries(group@), done),
{
    let ghost before = texts(lines@);
    let ghost all = group_lines(entries(group@), done);
    let mut i: usize = 0;
    assert(texts(lines@) =~= before + all.take(0));
    while i < group.len()
        invariant
            i <= group@.len(),
            all == group_lines(entries(group@), done),
            texts(lines@) == before + all.take(i as int),
        decreases group@.len() - i,
    {
        let text = group[i].line(done);
        let ghost shown = texts(lines@);
        lines.push(text);
        assert(entries(group@)[i as int] == group@[i as int]@);
        assert(all[i as int] == text@);
        assert(all.take(i + 1) =~= all.take(i as int).push(text@));
        assert(texts(lines@) =~= shown.push(text@));
        assert(texts(lines@) =~= before + all.take(i + 1));
        i += 1;
    }
    assert(all.take(i as int) =~= all);
}

/// The lines to show for the list, from top to bottom.
pub fn render(tasks: &Vec<Task>) -> (lines: Vec<String>)
    ensures
        texts(lines@) == rendered(model(tasks@)),
{
    let mut lines: Vec<String> = Vec::new();
    match list_tasks(tasks) {
        None => {
            lines.push("No tasks in the todo list".to_owned());
            assert(texts(lines@) =~= rendered(model(tasks@)));
        },
        Some(listing) => {
            lines.push("Completed tasks:".to_owned());
            assert(texts(lines@) =~= seq!["Completed tasks:"@]);
            push_group_lines(&mut lines, &listing.completed, true);
            let ghost upper = texts(lines@);
            lines.push("Uncompleted tasks:".to_owned());
            assert(texts(lines@) =~= upper + seq!["Uncompleted tasks:"@]);
            push_group_lines(&mut lines, &listing.uncompleted, false);
        },
    }
    lines
}

} // verus!
