use vstd::prelude::*;
use crate::store::TaskStore;
use crate::task::{ListKind, Task};
use crate::text::{decimal_text, usize_text};

verus! {

/// The lines that show one task.
pub open spec fn task_block(t: Task) -> Seq<char> {
    "Index: "@ + decimal_text(t.index as nat) + "\n"@
        + "Name: "@ + t.name@ + "\n"@
        + "Task Description: "@ + t.description@ + "\n"@
        + "Task Due Date: "@ + t.due_date@ + "\n"@
        + "----------------------------------------------\n"@
}

/// The blocks of all tasks of `s`, in order.
pub open spec fn task_blocks(s: Seq<Task>) -> Seq<char>
    decreases s.len(),
{
    if s.len() == 0 {
        Seq::empty()
    } else {
        task_blocks(s.drop_last()) + task_block(s.last())
    }
}

/// A list under a header with its name, closed by a rule and a blank line.
pub open spec fn list_text(s: Seq<Task>, list_name: Seq<char>) -> Seq<char> {
    "=================== "@ + list_name + " LIST =====================\n"@
        + task_blocks(s)
        + "==================================================\n\n"@
}

/// The three lists one after the other, as `print_lists` shows them.
pub open spec fn lists_text(s: TaskStore) -> Seq<char> {
    list_text(s.pending@, "TODO"@) + list_text(s.in_progress@, "DOING"@)
        + list_text(s.finished@, "FINISHED"@)
}

/// The text that shows one task.
fn render_task(t: &Task) -> (r: String)
    ensures
        r@ == task_block(*t),
{
    let mut out = String::new();
    out.append("Index: ");
    let n = usize_text(t.index);
    out.append(n.as_str());
    out.append("\n");
    out.append("Name: ");
    out.append(t.name.as_str());
    out.append("\n");
    out.append("Task Description: ");
    out.append(t.description.as_str());
    out.append("\n");
    out.append("Task Due Date: ");
    out.append(t.due_date.as_str());
    out.append("\n");
    out.append("----------------------------------------------\n");
    proof {
        assert(out@ =~= task_block(*t));
    }
    out
}

/// The text that shows `list` under the header `list_name`.
pub fn print_list(list: &Vec<Task>, list_name: &str) -> (r: String)
    ensures
        r@ == list_text(list@, list_name@),
{
    let mut out = String::new();
    out.append("=================== ");
    out.append(list_name);
    out.append(" LIST =====================\n");
    let ghost head = out@;
    let mut i: usize = 0;
    while i < list.len()
        invariant
            0 <= i <= list@.len(),
            head == "=================== "@ + list_name@ + " LIST =====================\n"@,
            out@ == head + task_blocks(list@.subrange(0, i as int)),
        decreases list@.len() - i,
    {
        let block = render_task(&list[i]);
        out.append(block.as_str());
        proof {
            let next = list@.subrange(0, i + 1);
            assert(next.drop_last() =~= list@.subrange(0, i as int));
            assert(next.last() == list@[i as int]);
            assert(out@ =~= head + task_blocks(next));
        }
        i += 1;
    }
    out.append("==================================================\n\n");
    proof {
        assert(list@.subrange(0, list@.len() as int) =~= list@);
        assert(out@ =~= list_text(list@, list_name@));
    }
    out
}

/// The text that shows the pending, in-progress and finished lists.
pub fn print_lists(store: &TaskStore) -> (r: String)
    ensures
        r@ == lists_text(*store),
{
    let mut out = print_list(store.list(ListKind::Pending), "TODO");
    let doing = print_list(store.list(ListKind::InProgress), "DOING");
    out.append(doing.as_str());
    let finished = print_list(store.list(ListKind::Finished), "FINISHED");
    out.append(finished.as_str());
    out
}

} // verus!
