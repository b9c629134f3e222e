//! Tasks and the changes that can be made to a list of them.

use vstd::prelude::*;

verus! {

/// A task.
#[derive(Debug, Clone, PartialEq, Eq)]
pub struct Task {
    pub id: u32,
    pub title: String,
    pub description: String,
    pub completed: bool,
}

impl Task {
    /// A new task, which is not completed.
    pub fn new(id: u32, title: String, description: String) -> (r: Task)
        ensures
            r.id == id,
            r.title == title,
            r.description == description,
            !r.completed,
    {
        Task { id, title, description, completed: false }
    }
}

/// Whether `k` is the position of the first task of `tasks` with the
/// identifier `id`.
pub open spec fn is_first_with_id(tasks: Seq<Task>, id: u32, k: int) -> bool {
    &&& 0 <= k < tasks.len()
    &&& tasks[k].id == id
    &&& forall|j: int| 0 <= j < k ==> tasks[j].id != id
}

/// Whether no task of `tasks` has the identifier `id`.
pub open spec fn has_no_id(tasks: Seq<Task>, id: u32) -> bool {
    forall|j: int| 0 <= j < tasks.len() ==> tasks[j].id != id
}

/// The position of the first task with the identifier `id`.
pub fn position_of(tasks: &Vec<Task>, id: u32) -> (r: Option<usize>)
    ensures
        match r {
            Some(k) => is_first_with_id(tasks@, id, k as int),
            None => has_no_id(tasks@, id),
        },
{
    let mut k: usize = 0;
    while k < tasks.len()
        invariant
            k <= tasks.len(),
            forall|j: int| 0 <= j < k ==> tasks[j].id != id,
        decreases tasks.len() - k,
    {
        if tasks[k].id == id {
            return Some(k);
        }
        k += 1;
    }
    None
}

/// Adds `task` at the end of the list.
pub fn create_task(tasks: &mut Vec<Task>, task: Task)
    ensures
        final(tasks)@ == old(tasks)@.push(task),
{
    tasks.push(task);
}

/// Puts `updated` in the place of the first task with its identifier. Where
/// there is none, the list stays as it is and the result is `false`.
pub fn update_task(tasks: &mut Vec<Task>, updated: Task) -> (found: bool)
    ensures
        found <==> !has_no_id(old(tasks)@, updated.id),
        !found ==> final(tasks)@ == old(tasks)@,
        found ==> exists|k: int|
            is_first_with_id(old(tasks)@, updated.id, k) && final(tasks)@ == old(tasks)@.update(
                k,
                updated,
            ),
{
    match position_of(tasks, updated.id) {
        Some(k) => {
            tasks[k] = updated;
            true
        },
        None => false,
    }
}

/// Removes the first task that has the identifier of `task_to_delete`. Where
/// there is none, the list stays as it is and the result is `false`.
pub fn delete_task(tasks: &mut Vec<Task>, task_to_delete: &Task) -> (found: bool)
    ensures
        found <==> !has_no_id(old(tasks)@, task_to_delete.id),
        !found ==> final(tasks)@ == old(tasks)@,
        found ==> exists|k: int|
            is_first_with_id(old(tasks)@, task_to_delete.id, k) && final(tasks)@ == old(
                tasks,
            )@.remove(k),
{
    match position_of(tasks, task_to_delete.id) {
        Some(k) => {
            tasks.remove(k);
            true
        },
        None => false,
    }
}

} // verus!
