use vstd::prelude::*;
use crate::render::{lists_text, print_lists};
use crate::store::{first_with, holds_id, MoveError, TaskStore};
use crate::task::ListKind;
use crate::text::{decimal_usize, occurs_in, parse_usize, str_contains};

verus! {

/// What one invocation asks for; every part is optional.
#[derive(Debug, Clone)]
pub struct Args {
    /// Name, description and due date of a task to add.
    pub add_task: Option<Vec<String>>,
    /// Identifier of a task to remove; 0 asks for nothing.
    pub remove_task: Option<usize>,
    /// Whether to show the lists.
    pub list_task: bool,
    /// Identifier, source list name and destination list name of a move.
    pub task_move: Option<Vec<String>>,
}

/// What a move request came to.
#[derive(Debug, Clone, Copy, PartialEq, Eq, Structural)]
pub enum MoveOutcome {
    /// No move was asked for, or not with exactly three values.
    NotRequested,
    /// The list names name no two different lists.
    InvalidLists,
    /// The source list holds no task with that identifier.
    NotFound,
    /// The task was moved.
    Moved,
}

proof fn lemma_total_after_add(before: &TaskStore, after: &TaskStore, added: bool)
    requires
        added ==> after.pending@.len() == before.pending@.len() + 1
            && after.in_progress@ == before.in_progress@ && after.finished@ == before.finished@,
        !added ==> after.same_state(before),
    ensures
        after.total() == before.total() + if added { 1int } else { 0int },
{
}

proof fn lemma_total_after_remove(before: &TaskStore, after: &TaskStore, removed: Option<ListKind>)
    requires
        removed is None ==> after.same_state(before),
        removed matches Some(k) ==> after.list_of(k).len() == before.list_of(k).len() - 1
            && after.others_unchanged(before, k),
    ensures
        after.total() == before.total() - if removed is Some { 1int } else { 0int },
{
    if removed is Some {
        let k = removed.unwrap();
        assert(after.list_of(ListKind::Pending) == before.list_of(ListKind::Pending) || k == ListKind::Pending);
        assert(after.list_of(ListKind::InProgress) == before.list_of(ListKind::InProgress) || k == ListKind::InProgress);
        assert(after.list_of(ListKind::Finished) == before.list_of(ListKind::Finished) || k == ListKind::Finished);
    }
}

/// The name refers to the pending list: it contains "todo" or "pending".
pub open spec fn names_pending(name: Seq<char>) -> bool {
    occurs_in(name, "todo"@) || occurs_in(name, "pending"@)
}

/// The name refers to the in-progress list: it contains "doing" or "in_progress".
pub open spec fn names_in_progress(name: Seq<char>) -> bool {
    occurs_in(name, "doing"@) || occurs_in(name, "in_progress"@)
}

/// The name refers to the finished list: it contains "finished".
pub open spec fn names_finished(name: Seq<char>) -> bool {
    occurs_in(name, "finished"@)
}

/// The (source, destination) pair that two list names give. The six pairs
/// of different lists are tried in a fixed order, each by the words the two
/// names contain: pending to in progress, pending to finished, in progress
/// to finished, in progress to pending, finished to in progress, finished
/// to pending. A name may contain several list words; the first pair that
/// fits wins.
pub open spec fn move_pair(source: Seq<char>, dest: Seq<char>) -> Option<(ListKind, ListKind)> {
    if names_pending(source) && names_in_progress(dest) {
        Some((ListKind::Pending, ListKind::InProgress))
    } else if names_pending(source) && names_finished(dest) {
        Some((ListKind::Pending, ListKind::Finished))
    } else if names_in_progress(source) && names_finished(dest) {
        Some((ListKind::InProgress, ListKind::Finished))
    } else if names_in_progress(source) && names_pending(dest) {
        Some((ListKind::InProgress, ListKind::Pending))
    } else if names_finished(source) && names_in_progress(dest) {
        Some((ListKind::Finished, ListKind::InProgress))
    } else if names_finished(source) && names_pending(dest) {
        Some((ListKind::Finished, ListKind::Pending))
    } else {
        None
    }
}

/// The identifier a move request names; text that is no number gives 0,
/// which no task carries.
pub open spec fn move_id(text: Seq<char>) -> usize {
    match decimal_usize(text) {
        Some(n) => n,
        None => 0,
    }
}

/// The three values of an add request, when it has exactly three.
pub open spec fn add_values(args: Args) -> Option<Seq<String>> {
    match args.add_task {
        Some(v) => if v@.len() == 3 { Some(v@) } else { None },
        None => None,
    }
}

/// The three values of a move request, when it has exactly three.
pub open spec fn move_values(args: Args) -> Option<Seq<String>> {
    match args.task_move {
        Some(v) => if v@.len() == 3 { Some(v@) } else { None },
        None => None,
    }
}

/// The identifier a remove request names; no request counts as 0.
pub open spec fn remove_id(args: Args) -> usize {
    match args.remove_task {
        Some(n) => n,
        None => 0,
    }
}

/// The add step of `args` took `before` to `after` and returned `r`.
pub open spec fn add_post(before: TaskStore, after: TaskStore, args: Args, r: Option<usize>) -> bool {
    match add_values(args) {
        None => r is None && after.same_state(&before),
        Some(v) => {
            &&& r == Some((before.counter + 1) as usize)
            &&& after.counter == before.counter + 1
            &&& after.pending@.len() == before.pending@.len() + 1
            &&& after.pending@.drop_last() == before.pending@
            &&& after.pending@.last().index == before.counter + 1
            &&& after.pending@.last().name@ == v[0]@
            &&& after.pending@.last().description@ == v[1]@
            &&& after.pending@.last().due_date@ == v[2]@
            &&& after.in_progress@ == before.in_progress@
            &&& after.finished@ == before.finished@
            &&& before.counter == before.total() ==> r == Some((before.total() + 1) as usize)
        },
    }
}

/// The remove step of `args` took `before` to `after` and returned `r`: the
/// first task carrying the identifier, searched for in the pending, then
/// the in-progress, then the finished list, is gone, and nothing else.
pub open spec fn remove_post(before: TaskStore, after: TaskStore, args: Args, r: Option<ListKind>) -> bool {
    let id = remove_id(args);
    &&& r is None <==> (id == 0 || (!holds_id(before.pending@, id)
        && !holds_id(before.in_progress@, id) && !holds_id(before.finished@, id)))
    &&& r == Some(ListKind::Pending) <==> id != 0 && holds_id(before.pending@, id)
    &&& r == Some(ListKind::InProgress) <==> id != 0 && !holds_id(before.pending@, id)
        && holds_id(before.in_progress@, id)
    &&& r == Some(ListKind::Finished) <==> id != 0 && !holds_id(before.pending@, id)
        && !holds_id(before.in_progress@, id) && holds_id(before.finished@, id)
    &&& r is None ==> after.same_state(&before)
    &&& r matches Some(k) ==> {
        &&& after.list_of(k) == before.list_of(k).remove(first_with(before.list_of(k), id))
        &&& after.list_of(k).len() == before.list_of(k).len() - 1
        &&& after.others_unchanged(&before, k)
    }
    &&& after.counter == before.counter
}

/// The move step of `args` took `before` to `after` and came to `r`.
pub open spec fn move_post(before: TaskStore, after: TaskStore, args: Args, r: MoveOutcome) -> bool {
    &&& after.counter == before.counter
    &&& r != MoveOutcome::Moved ==> after.same_state(&before)
    &&& match move_values(args) {
        None => r == MoveOutcome::NotRequested,
        Some(v) => match move_pair(v[1]@, v[2]@) {
            None => r == MoveOutcome::InvalidLists,
            Some((src, dst)) => {
                let id = move_id(v[0]@);
                &&& (r == MoveOutcome::NotFound || r == MoveOutcome::Moved)
                &&& (r == MoveOutcome::NotFound <==> !holds_id(before.list_of(src), id))
                &&& r == MoveOutcome::Moved ==> {
                    let p = first_with(before.list_of(src), id);
                    &&& after.list_of(src) == before.list_of(src).remove(p)
                    &&& after.list_of(dst) == before.list_of(dst).push(before.list_of(src)[p])
                    &&& forall|j: ListKind| j != src && j != dst
                        ==> #[trigger] after.list_of(j) == before.list_of(j)
                    &&& after.total() == before.total()
                }
            },
        },
    }
}

/// The (source, destination) pair that two list names give; see `move_pair`.
pub fn move_pair_of(source: &str, dest: &str) -> (r: Option<(ListKind, ListKind)>)
    ensures
        r == move_pair(source@, dest@),
{
    let src_pending = str_contains(source, "todo") || str_contains(source, "pending");
    let src_in_progress = str_contains(source, "doing") || str_contains(source, "in_progress");
    let src_finished = str_contains(source, "finished");
    let dst_pending = str_contains(dest, "todo") || str_contains(dest, "pending");
    let dst_in_progress = str_contains(dest, "doing") || str_contains(dest, "in_progress");
    let dst_finished = str_contains(dest, "finished");
    if src_pending && dst_in_progress {
        Some((ListKind::Pending, ListKind::InProgress))
    } else if src_pending && dst_finished {
        Some((ListKind::Pending, ListKind::Finished))
    } else if src_in_progress && dst_finished {
        Some((ListKind::InProgress, ListKind::Finished))
    } else if src_in_progress && dst_pending {
        Some((ListKind::InProgress, ListKind::Pending))
    } else if src_finished && dst_in_progress {
        Some((ListKind::Finished, ListKind::InProgress))
    } else if src_finished && dst_pending {
        Some((ListKind::Finished, ListKind::Pending))
    } else {
        None
    }
}

/// Adds the task that `args` describes, when it gives exactly three values,
/// and returns its identifier; otherwise changes nothing.
pub fn add_task(args: &Args, store: &mut TaskStore) -> (r: Option<usize>)
    requires
        add_values(*args) is Some ==> old(store).counter < usize::MAX,
    ensures
        add_post(*old(store), *final(store), *args, r),
        old(store).wf() ==> final(store).wf(),
{
    match &args.add_task {
        Some(v) => {
            if v.len() == 3 {
                let id = store.add(v[0].clone(), v[1].clone(), v[2].clone());
                Some(id)
            } else {
                None
            }
        },
        None => None,
    }
}

/// The text of the three lists, when `args` asks to show them.
pub fn list_tasks(args: &Args, store: &TaskStore) -> (r: Option<String>)
    ensures
        r is Some <==> args.list_task,
        r matches Some(t) ==> t@ == lists_text(*store),
{
    if args.list_task {
        Some(print_lists(store))
    } else {
        None
    }
}

/// Removes the task whose identifier `args` names, if any; see
/// `TaskStore::remove`.
pub fn remove_task(args: &Args, store: &mut TaskStore) -> (r: Option<ListKind>)
    ensures
        remove_post(*old(store), *final(store), *args, r),
        old(store).wf() ==> final(store).wf(),
{
    let id: usize = match args.remove_task {
        Some(n) => n,
        None => 0,
    };
    let r = store.remove(id);
    proof {
        if r is None {
            assert(store.pending@ =~= old(store).pending@);
        }
    }
    r
}

/// Carries out the move that `args` asks for: the first task with the
/// given identifier leaves the list named first and goes to the end of the
/// list named second.
pub fn move_task(args: &Args, store: &mut TaskStore) -> (r: MoveOutcome)
    ensures
        move_post(*old(store), *final(store), *args, r),
        old(store).wf() ==> final(store).wf(),
{
    match &args.task_move {
        Some(v) => {
            if v.len() != 3 {
                return MoveOutcome::NotRequested;
            }
            let id: usize = match parse_usize(v[0].as_str()) {
                Some(n) => n,
                None => 0,
            };
            match move_pair_of(v[1].as_str(), v[2].as_str()) {
                Some((a, b)) => {
                    match store.transfer(id, a, b) {
                        Ok(()) => MoveOutcome::Moved,
                        Err(MoveError::NotFound) => {
                            proof {
                                assert(store.pending@ =~= old(store).pending@);
                            }
                            MoveOutcome::NotFound
                        },
                        Err(MoveError::SameList) => MoveOutcome::InvalidLists,
                    }
                },
                None => MoveOutcome::InvalidLists,
            }
        },
        None => MoveOutcome::NotRequested,
    }
}

/// What one invocation did, step by step.
#[derive(Debug)]
pub struct Report {
    /// Identifier of the task added, if one was.
    pub added: Option<usize>,
    /// The lists as shown, if showing was asked for.
    pub listing: Option<String>,
    /// The list a task was removed from, if one was.
    pub removed: Option<ListKind>,
    /// What the move request came to.
    pub moved: MoveOutcome,
}

/// Applies what `args` asks for in a fixed order: add, then show, then
/// remove, then move. The caller saves all three lists afterwards, whether
/// or not anything changed.
pub fn run(args: &Args, store: &mut TaskStore) -> (r: Report)
    requires
        add_values(*args) is Some ==> old(store).counter < usize::MAX,
    ensures
        exists|a: TaskStore, b: TaskStore|
            #![trigger add_post(*old(store), a, *args, r.added), remove_post(a, b, *args, r.removed)]
            {
                &&& add_post(*old(store), a, *args, r.added)
                &&& (r.listing matches Some(t) ==> t@ == lists_text(a))
                &&& remove_post(a, b, *args, r.removed)
                &&& move_post(b, *final(store), *args, r.moved)
            },
        r.listing is Some <==> args.list_task,
        old(store).wf() ==> final(store).wf(),
        final(store).total() == old(store).total() + (if r.added is Some { 1int } else { 0int })
            - (if r.removed is Some { 1int } else { 0int }),
        add_values(*args) is None && remove_id(*args) == 0 && move_values(*args) is None
            ==> final(store).same_state(old(store)),
{
    let added = add_task(args, store);
    let ghost after_add = *store;
    proof {
        lemma_total_after_add(old(store), &after_add, added is Some);
    }
    let listing = list_tasks(args, store);
    let removed = remove_task(args, store);
    let ghost after_remove = *store;
    proof {
        lemma_total_after_remove(&after_add, &after_remove, removed);
    }
    let moved = move_task(args, store);
    proof {
        if moved != MoveOutcome::Moved {
            assert(store.total() == after_remove.total());
        }
        assert(add_post(*old(store), after_add, *args, added));
        assert(remove_post(after_add, after_remove, *args, removed));
    }
    Report { added, listing, removed, moved }
}

} // verus!
