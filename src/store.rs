use vstd::prelude::*;
use vstd::multiset::Multiset;
use crate::task::{same_content, ListKind, Task};

verus! {

/// Whether some task of `s` carries identifier `id`.
pub open spec fn holds_id(s: Seq<Task>, id: usize) -> bool {
    exists|i: int| 0 <= i < s.len() && #[trigger] s[i].index == id
}

/// `p` is the first position of `s` whose task carries `id`.
pub open spec fn is_first_with(s: Seq<Task>, id: usize, p: int) -> bool {
    &&& 0 <= p < s.len()
    &&& s[p].index == id
    &&& forall|q: int| 0 <= q < p ==> #[trigger] s[q].index != id
}

/// The first position of `s` whose task carries `id` (meaningful when `holds_id(s, id)`).
pub open spec fn first_with(s: Seq<Task>, id: usize) -> int {
    choose|p: int| is_first_with(s, id, p)
}

/// `res` is `orig` with its text kept and its identifiers replaced by
/// `start + 1, start + 2, ...` in order.
pub open spec fn is_renumbering(orig: Seq<Task>, res: Seq<Task>, start: int) -> bool {
    &&& res.len() == orig.len()
    &&& forall|i: int| 0 <= i < res.len() ==> #[trigger] res[i].index == start + i + 1
    &&& forall|i: int| 0 <= i < res.len() ==> same_content(#[trigger] res[i], orig[i])
}

/// Only one position of a sequence is the first to carry a given identifier.
pub proof fn lemma_first_unique(s: Seq<Task>, id: usize, p: int)
    requires
        is_first_with(s, id, p),
    ensures
        first_with(s, id) == p,
{
    let c = first_with(s, id);
    assert(is_first_with(s, id, c));
    if c < p {
        assert(s[c].index != id);
    } else if p < c {
        assert(s[p].index != id);
    }
}

/// What a parsed list holds; a list that could not be read counts as empty.
pub open spec fn parsed_seq(o: Option<Vec<Task>>) -> Seq<Task> {
    match o {
        Some(v) => v@,
        None => Seq::empty(),
    }
}

/// `a` and `b` hold the same identifiers and text at every position.
pub open spec fn same_tasks(a: Seq<Task>, b: Seq<Task>) -> bool {
    &&& a.len() == b.len()
    &&& forall|i: int| 0 <= i < a.len() ==> #[trigger] a[i].index == b[i].index
    &&& forall|i: int| 0 <= i < a.len() ==> same_content(#[trigger] a[i], b[i])
}

/// The identifiers of the tasks of `s`, in order.
pub open spec fn ids_of(s: Seq<Task>) -> Seq<usize> {
    s.map_values(|t: Task| t.index)
}

/// How many tasks of `s` carry each identifier.
pub open spec fn bag_of(s: Seq<Task>) -> Multiset<usize> {
    ids_of(s).to_multiset()
}

/// Why a move was not carried out.
#[derive(Debug, Clone, Copy, PartialEq, Eq, Structural)]
pub enum MoveError {
    /// Source and destination are the same list.
    SameList,
    /// No task in the source list carries the identifier.
    NotFound,
}

/// The three lists and the counter that hands out identifiers.
///
/// Identifiers are positional per load: every load renumbers all tasks
/// 1..N in pending, in-progress, finished order, so a task's identifier
/// may differ from one run to the next. They are not permanent keys.
#[derive(Debug)]
pub struct TaskStore {
    pub pending: Vec<Task>,
    pub in_progress: Vec<Task>,
    pub finished: Vec<Task>,
    /// The last identifier handed out.
    pub counter: usize,
}

/// Position of the first task of `list` that carries `id`.
pub fn position_of(list: &Vec<Task>, id: usize) -> (r: Option<usize>)
    ensures
        r matches Some(p) ==> is_first_with(list@, id, p as int),
        r is None <==> !holds_id(list@, id),
{
    let mut i: usize = 0;
    while i < list.len()
        invariant
            0 <= i <= list.len(),
            forall|q: int| 0 <= q < i ==> #[trigger] list@[q].index != id,
        decreases list.len() - i,
    {
        if list[i].index == id {
            return Some(i);
        }
        i += 1;
    }
    None
}

impl TaskStore {
    /// The list named by `k`.
    pub open spec fn list_of(&self, k: ListKind) -> Seq<Task> {
        match k {
            ListKind::Pending => self.pending@,
            ListKind::InProgress => self.in_progress@,
            ListKind::Finished => self.finished@,
        }
    }

    /// Number of tasks over the three lists.
    pub open spec fn total(&self) -> int {
        (self.pending@.len() + self.in_progress@.len() + self.finished@.len()) as int
    }

    /// The tasks of the three lists in scan order: pending, in progress, finished.
    pub open spec fn all_tasks(&self) -> Seq<Task> {
        self.pending@ + self.in_progress@ + self.finished@
    }

    /// `self` is what loading lists that held `p`, `ip` and `f` gives:
    /// each list renumbered, continuing from where the previous one ended.
    pub open spec fn loaded_from(&self, p: Seq<Task>, ip: Seq<Task>, f: Seq<Task>) -> bool {
        &&& is_renumbering(p, self.pending@, 0)
        &&& is_renumbering(ip, self.in_progress@, p.len() as int)
        &&& is_renumbering(f, self.finished@, (p.len() + ip.len()) as int)
        &&& self.counter == p.len() + ip.len() + f.len()
    }

    /// How many tasks, over the three lists, carry each identifier.
    pub open spec fn id_bag(&self) -> Multiset<usize> {
        bag_of(self.pending@).add(bag_of(self.in_progress@)).add(bag_of(self.finished@))
    }

    /// Each identifier is carried by at most one task over the three lists,
    /// so every task stands in exactly one list, and no identifier is above
    /// the counter, so the next one handed out is new.
    pub open spec fn wf(&self) -> bool {
        forall|x: usize| #[trigger] self.id_bag().count(x) > 0
            ==> self.id_bag().count(x) == 1 && 1 <= x && x <= self.counter
    }

    /// `self` holds the same lists and counter as `other`.
    pub open spec fn same_state(&self, other: &TaskStore) -> bool {
        &&& self.pending@ == other.pending@
        &&& self.in_progress@ == other.in_progress@
        &&& self.finished@ == other.finished@
        &&& self.counter == other.counter
    }

    /// Every list but `k` is as in `other`.
    pub open spec fn others_unchanged(&self, other: &TaskStore, k: ListKind) -> bool {
        forall|j: ListKind| j != k ==> #[trigger] self.list_of(j) == other.list_of(j)
    }

    /// Three empty lists; no identifier handed out yet.
    pub fn new() -> (s: TaskStore)
        ensures
            s.pending@.len() == 0,
            s.in_progress@.len() == 0,
            s.finished@.len() == 0,
            s.counter == 0,
    {
        TaskStore { pending: Vec::new(), in_progress: Vec::new(), finished: Vec::new(), counter: 0 }
    }

    /// The last identifier handed out.
    pub fn idx_get(&self) -> (r: usize)
        ensures
            r == self.counter,
    {
        self.counter
    }

    /// Advances the identifier counter by one.
    pub fn idx_inc(&mut self)
        requires
            old(self).counter < usize::MAX,
        ensures
            final(self).counter == old(self).counter + 1,
            final(self).pending@ == old(self).pending@,
            final(self).in_progress@ == old(self).in_progress@,
            final(self).finished@ == old(self).finished@,
    {
        self.counter = self.counter + 1;
    }

    /// Gives the tasks of `list` the next identifiers, in order, and keeps their text.
    pub fn recreate_index(&mut self, list: Vec<Task>) -> (r: Vec<Task>)
        requires
            old(self).counter + list@.len() <= usize::MAX,
        ensures
            is_renumbering(list@, r@, old(self).counter as int),
            final(self).counter == old(self).counter + list@.len(),
            final(self).pending@ == old(self).pending@,
            final(self).in_progress@ == old(self).in_progress@,
            final(self).finished@ == old(self).finished@,
    {
        let ghost orig = list@;
        let mut list = list;
        let mut i: usize = 0;
        while i < list.len()
            invariant
                list@.len() == orig.len(),
                0 <= i <= list@.len(),
                self.counter == old(self).counter + i,
                old(self).counter + orig.len() <= usize::MAX,
                self.pending@ == old(self).pending@,
                self.in_progress@ == old(self).in_progress@,
                self.finished@ == old(self).finished@,
                forall|j: int| 0 <= j < i ==> #[trigger] list@[j].index == old(self).counter + j + 1,
                forall|j: int| 0 <= j < list@.len() ==> same_content(#[trigger] list@[j], orig[j]),
            decreases list@.len() - i,
        {
            self.idx_inc();
            let c = self.idx_get();
            list[i].update_index(c);
            i += 1;
        }
        list
    }

    /// Renumbers a freshly read list; one that could not be read becomes empty.
    pub fn recreate_list(&mut self, parsed: Option<Vec<Task>>) -> (r: Vec<Task>)
        requires
            old(self).counter + parsed_seq(parsed).len() <= usize::MAX,
        ensures
            is_renumbering(parsed_seq(parsed), r@, old(self).counter as int),
            final(self).counter == old(self).counter + parsed_seq(parsed).len(),
            final(self).pending@ == old(self).pending@,
            final(self).in_progress@ == old(self).in_progress@,
            final(self).finished@ == old(self).finished@,
    {
        match parsed {
            Some(v) => self.recreate_index(v),
            None => Vec::new(),
        }
    }

    /// Builds the store from the three lists as read, renumbering all
    /// tasks 1..N in pending, in-progress, finished order.
    pub fn load(pending: Option<Vec<Task>>, in_progress: Option<Vec<Task>>, finished: Option<Vec<Task>>) -> (s: TaskStore)
        requires
            parsed_seq(pending).len() + parsed_seq(in_progress).len() + parsed_seq(finished).len() <= usize::MAX,
        ensures
            s.loaded_from(parsed_seq(pending), parsed_seq(in_progress), parsed_seq(finished)),
            s.counter == s.total(),
            forall|i: int| 0 <= i < s.all_tasks().len() ==> #[trigger] s.all_tasks()[i].index == i + 1,
            s.wf(),
    {
        let mut s = TaskStore::new();
        let p = s.recreate_list(pending);
        s.pending = p;
        let ip = s.recreate_list(in_progress);
        s.in_progress = ip;
        let f = s.recreate_list(finished);
        s.finished = f;
        proof {
            lemma_loaded_wf(&s, parsed_seq(pending), parsed_seq(in_progress), parsed_seq(finished));
            lemma_loaded_numbering(s, parsed_seq(pending), parsed_seq(in_progress), parsed_seq(finished));
        }
        s
    }

    /// Puts `t` at the end of the list named by `k`.
    fn push_to(&mut self, k: ListKind, t: Task)
        ensures
            final(self).list_of(k) == old(self).list_of(k).push(t),
            final(self).others_unchanged(old(self), k),
            final(self).counter == old(self).counter,
    {
        match k {
            ListKind::Pending => self.pending.push(t),
            ListKind::InProgress => self.in_progress.push(t),
            ListKind::Finished => self.finished.push(t),
        }
    }

    /// Takes the task at position `p` out of the list named by `k`.
    fn take_from(&mut self, k: ListKind, p: usize) -> (t: Task)
        requires
            p < old(self).list_of(k).len(),
        ensures
            t == old(self).list_of(k)[p as int],
            final(self).list_of(k) == old(self).list_of(k).remove(p as int),
            final(self).others_unchanged(old(self), k),
            final(self).counter == old(self).counter,
    {
        match k {
            ListKind::Pending => self.pending.remove(p),
            ListKind::InProgress => self.in_progress.remove(p),
            ListKind::Finished => self.finished.remove(p),
        }
    }

    /// The list named by `k`.
    pub fn list(&self, k: ListKind) -> (r: &Vec<Task>)
        ensures
            r@ == self.list_of(k),
    {
        match k {
            ListKind::Pending => &self.pending,
            ListKind::InProgress => &self.in_progress,
            ListKind::Finished => &self.finished,
        }
    }

    /// Appends a new task to the pending list, with the next identifier.
    pub fn add(&mut self, name: String, description: String, due_date: String) -> (id: usize)
        requires
            old(self).counter < usize::MAX,
        ensures
            id == old(self).counter + 1,
            final(self).counter == id,
            final(self).pending@.len() == old(self).pending@.len() + 1,
            final(self).pending@.drop_last() == old(self).pending@,
            final(self).pending@.last().index == id,
            final(self).pending@.last().name@ == name@,
            final(self).pending@.last().description@ == description@,
            final(self).pending@.last().due_date@ == due_date@,
            final(self).in_progress@ == old(self).in_progress@,
            final(self).finished@ == old(self).finished@,
            old(self).counter == old(self).total() ==> id == old(self).total() + 1,
            old(self).wf() ==> final(self).wf(),
    {
        self.idx_inc();
        let t = Task::new(name, description, due_date, self.idx_get());
        self.pending.push(t);
        proof {
            assert(self.pending@.drop_last() =~= old(self).pending@);
            lemma_push_count(old(self), self, ListKind::Pending, self.pending@.last());
            if old(self).wf() {
                assert forall|x: usize| #[trigger] self.id_bag().count(x) > 0
                    implies self.id_bag().count(x) == 1 && 1 <= x && x <= self.counter by {
                    if old(self).id_bag().count(x) > 0 {
                        assert(x <= old(self).counter);
                    }
                }
            }
        }
        id_of_last(&self.pending)
    }

    /// Removes the first task that carries `id`, looking in the pending,
    /// then the in-progress, then the finished list, and tells which list
    /// it came from. An `id` of 0 asks for nothing and changes nothing.
    pub fn remove(&mut self, id: usize) -> (r: Option<ListKind>)
        ensures
            final(self).counter == old(self).counter,
            r == Some(ListKind::Pending) <==> id != 0 && holds_id(old(self).pending@, id),
            r == Some(ListKind::InProgress) <==> id != 0 && !holds_id(old(self).pending@, id)
                && holds_id(old(self).in_progress@, id),
            r == Some(ListKind::Finished) <==> id != 0 && !holds_id(old(self).pending@, id)
                && !holds_id(old(self).in_progress@, id) && holds_id(old(self).finished@, id),
            r is None ==> final(self).pending@ == old(self).pending@
                && final(self).in_progress@ == old(self).in_progress@
                && final(self).finished@ == old(self).finished@,
            r matches Some(k) ==> {
                &&& final(self).list_of(k) == old(self).list_of(k).remove(first_with(old(self).list_of(k), id))
                &&& final(self).list_of(k).len() == old(self).list_of(k).len() - 1
                &&& final(self).others_unchanged(old(self), k)
            },
            old(self).wf() ==> final(self).wf(),
    {
        if id == 0 {
            return None;
        }
        match position_of(&self.pending, id) {
            Some(p) => {
                proof {
                    lemma_first_unique(self.pending@, id, p as int);
                }
                let _ = self.take_from(ListKind::Pending, p);
                proof {
                    lemma_remove_count(old(self), self, ListKind::Pending, p as int);
                    if old(self).wf() {
                        lemma_wf_fewer(old(self), self);
                    }
                }
                return Some(ListKind::Pending);
            },
            None => {},
        }
        match position_of(&self.in_progress, id) {
            Some(p) => {
                proof {
                    lemma_first_unique(self.in_progress@, id, p as int);
                }
                let _ = self.take_from(ListKind::InProgress, p);
                proof {
                    lemma_remove_count(old(self), self, ListKind::InProgress, p as int);
                    if old(self).wf() {
                        lemma_wf_fewer(old(self), self);
                    }
                }
                return Some(ListKind::InProgress);
            },
            None => {},
        }
        match position_of(&self.finished, id) {
            Some(p) => {
                proof {
                    lemma_first_unique(self.finished@, id, p as int);
                }
                let _ = self.take_from(ListKind::Finished, p);
                proof {
                    lemma_remove_count(old(self), self, ListKind::Finished, p as int);
                    if old(self).wf() {
                        lemma_wf_fewer(old(self), self);
                    }
                }
                return Some(ListKind::Finished);
            },
            None => {},
        }
        None
    }

    /// Moves the first task of `source` that carries `id` to the end of
    /// `dest`. Tasks are found by identifier, as `remove` finds them, not
    /// by position.
    pub fn transfer(&mut self, id: usize, source: ListKind, dest: ListKind) -> (r: Result<(), MoveError>)
        ensures
            final(self).counter == old(self).counter,
            r == Err::<(), MoveError>(MoveError::SameList) <==> source == dest,
            r == Err::<(), MoveError>(MoveError::NotFound) <==> source != dest
                && !holds_id(old(self).list_of(source), id),
            r is Ok <==> source != dest && holds_id(old(self).list_of(source), id),
            r is Err ==> final(self).pending@ == old(self).pending@
                && final(self).in_progress@ == old(self).in_progress@
                && final(self).finished@ == old(self).finished@,
            r is Ok ==> {
                let p = first_with(old(self).list_of(source), id);
                &&& final(self).list_of(source) == old(self).list_of(source).remove(p)
                &&& final(self).list_of(dest) == old(self).list_of(dest).push(old(self).list_of(source)[p])
                &&& final(self).list_of(source).len() == old(self).list_of(source).len() - 1
                &&& final(self).list_of(dest).len() == old(self).list_of(dest).len() + 1
                &&& forall|j: ListKind| j != source && j != dest
                    ==> #[trigger] final(self).list_of(j) == old(self).list_of(j)
                &&& final(self).total() == old(self).total()
            },
            old(self).wf() ==> final(self).wf(),
    {
        if source == dest {
            return Err(MoveError::SameList);
        }
        match position_of(self.list(source), id) {
            Some(p) => {
                proof {
                    lemma_first_unique(self.list_of(source), id, p as int);
                }
                let t = self.take_from(source, p);
                let ghost mid = *self;
                self.push_to(dest, t);
                proof {
                    lemma_remove_count(old(self), &mid, source, p as int);
                    lemma_push_count(&mid, self, dest, t);
                    if old(self).wf() {
                        lemma_wf_fewer(old(self), self);
                    }
                    lemma_total_by_kind(old(self));
                    lemma_total_by_kind(self);
                    assert forall|j: ListKind|
                        #[trigger] self.list_of(j).len() == old(self).list_of(j).len()
                            + (if j == dest { 1int } else { 0int })
                            - (if j == source { 1int } else { 0int }) by {
                        if j != source {
                            assert(mid.list_of(j) == old(self).list_of(j));
                        }
                        if j != dest {
                            assert(self.list_of(j) == mid.list_of(j));
                        }
                    }
                }
                Ok(())
            },
            None => Err(MoveError::NotFound),
        }
    }
}

/// After a load, the tasks carry identifiers 1..N in scan order (pending,
/// then in progress, then finished), and the counter stands at N, so the
/// next task added gets N + 1.
pub proof fn lemma_loaded_numbering(s: TaskStore, p: Seq<Task>, ip: Seq<Task>, f: Seq<Task>)
    requires
        s.loaded_from(p, ip, f),
    ensures
        s.counter == s.total(),
        s.all_tasks().len() == s.total(),
        forall|i: int| 0 <= i < s.all_tasks().len() ==> #[trigger] s.all_tasks()[i].index == i + 1,
{
    let all = s.all_tasks();
    assert forall|i: int| 0 <= i < all.len() implies #[trigger] all[i].index == i + 1 by {
        let a = s.pending@.len() as int;
        let b = s.in_progress@.len() as int;
        if i < a {
            assert(all[i] == s.pending@[i]);
        } else if i < a + b {
            assert(all[i] == s.in_progress@[i - a]);
        } else {
            assert(all[i] == s.finished@[i - a - b]);
        }
    }
}

/// Loading, changing nothing, saving and loading again is stable: the
/// second load gives every task the identifier and the text that the
/// first gave it.
pub proof fn lemma_reload_stable(first: TaskStore, second: TaskStore, p: Seq<Task>, ip: Seq<Task>, f: Seq<Task>)
    requires
        first.loaded_from(p, ip, f),
        second.loaded_from(first.pending@, first.in_progress@, first.finished@),
    ensures
        same_tasks(second.pending@, first.pending@),
        same_tasks(second.in_progress@, first.in_progress@),
        same_tasks(second.finished@, first.finished@),
        second.counter == first.counter,
{
}

proof fn lemma_ids_push(s: Seq<Task>, t: Task)
    ensures
        bag_of(s.push(t)) == bag_of(s).insert(t.index),
{
    assert(ids_of(s.push(t)) =~= ids_of(s).push(t.index));
    ids_of(s).to_multiset_ensures();
}

proof fn lemma_ids_remove(s: Seq<Task>, p: int)
    requires
        0 <= p < s.len(),
    ensures
        bag_of(s.remove(p)) == bag_of(s).remove(s[p].index),
{
    assert(ids_of(s.remove(p)) =~= ids_of(s).remove(p));
    ids_of(s).to_multiset_ensures();
}

proof fn lemma_bag_by_kind(s: &TaskStore, x: usize)
    ensures
        s.id_bag().count(x) == bag_of(s.list_of(ListKind::Pending)).count(x)
            + bag_of(s.list_of(ListKind::InProgress)).count(x)
            + bag_of(s.list_of(ListKind::Finished)).count(x),
{
    broadcast use vstd::multiset::group_multiset_axioms;
}

/// The identifiers `start + 1 ..= start + s.len()`, once each.
proof fn lemma_consecutive_bag(s: Seq<Task>, start: int)
    requires
        forall|i: int| 0 <= i < s.len() ==> #[trigger] s[i].index == start + i + 1,
    ensures
        forall|x: usize| #[trigger] bag_of(s).count(x)
            == if start < x && x <= start + s.len() { 1nat } else { 0nat },
    decreases s.len(),
{
    broadcast use vstd::multiset::group_multiset_axioms;
    if s.len() == 0 {
        ids_of(s).to_multiset_ensures();
        assert(bag_of(s) =~= Multiset::<usize>::empty());
    } else {
        let init = s.drop_last();
        assert forall|i: int| 0 <= i < init.len() implies #[trigger] init[i].index == start + i + 1 by {
            assert(init[i] == s[i]);
        }
        lemma_consecutive_bag(init, start);
        assert(init.push(s.last()) =~= s);
        lemma_ids_push(init, s.last());
        assert(s.last().index == start + s.len());
    }
}

proof fn lemma_push_count(before: &TaskStore, after: &TaskStore, k: ListKind, t: Task)
    requires
        after.list_of(k) == before.list_of(k).push(t),
        after.others_unchanged(before, k),
    ensures
        forall|x: usize| #[trigger] after.id_bag().count(x)
            == before.id_bag().count(x) + if x == t.index { 1int } else { 0int },
{
    broadcast use vstd::multiset::group_multiset_axioms;
    lemma_ids_push(before.list_of(k), t);
    assert forall|x: usize| #[trigger] after.id_bag().count(x)
        == before.id_bag().count(x) + if x == t.index { 1int } else { 0int } by {
        lemma_bag_by_kind(before, x);
        lemma_bag_by_kind(after, x);
        assert(after.list_of(ListKind::Pending) == before.list_of(ListKind::Pending) || k == ListKind::Pending);
        assert(after.list_of(ListKind::InProgress) == before.list_of(ListKind::InProgress) || k == ListKind::InProgress);
        assert(after.list_of(ListKind::Finished) == before.list_of(ListKind::Finished) || k == ListKind::Finished);
    }
}

proof fn lemma_remove_count(before: &TaskStore, after: &TaskStore, k: ListKind, p: int)
    requires
        0 <= p < before.list_of(k).len(),
        after.list_of(k) == before.list_of(k).remove(p),
        after.others_unchanged(before, k),
    ensures
        forall|x: usize| #[trigger] after.id_bag().count(x)
            == before.id_bag().count(x) - if x == before.list_of(k)[p].index { 1int } else { 0int },
{
    broadcast use vstd::multiset::group_multiset_axioms;
    let v = before.list_of(k)[p].index;
    lemma_ids_remove(before.list_of(k), p);
    assert(ids_of(before.list_of(k))[p] == v);
    ids_of(before.list_of(k)).to_multiset_ensures();
    assert(ids_of(before.list_of(k)).contains(v));
    assert forall|x: usize| #[trigger] after.id_bag().count(x)
        == before.id_bag().count(x) - if x == v { 1int } else { 0int } by {
        lemma_bag_by_kind(before, x);
        lemma_bag_by_kind(after, x);
        assert(after.list_of(ListKind::Pending) == before.list_of(ListKind::Pending) || k == ListKind::Pending);
        assert(after.list_of(ListKind::InProgress) == before.list_of(ListKind::InProgress) || k == ListKind::InProgress);
        assert(after.list_of(ListKind::Finished) == before.list_of(ListKind::Finished) || k == ListKind::Finished);
    }
}

/// Loading gives a well-formed store: the identifiers 1..N, once each.
proof fn lemma_loaded_wf(s: &TaskStore, p: Seq<Task>, ip: Seq<Task>, f: Seq<Task>)
    requires
        s.loaded_from(p, ip, f),
    ensures
        s.wf(),
{
    broadcast use vstd::multiset::group_multiset_axioms;
    lemma_consecutive_bag(s.pending@, 0);
    lemma_consecutive_bag(s.in_progress@, p.len() as int);
    lemma_consecutive_bag(s.finished@, (p.len() + ip.len()) as int);
}

/// A store whose identifier counts are no larger than those of a
/// well-formed store with the same counter is well formed.
proof fn lemma_wf_fewer(before: &TaskStore, after: &TaskStore)
    requires
        before.wf(),
        after.counter == before.counter,
        forall|x: usize| #[trigger] after.id_bag().count(x) <= before.id_bag().count(x),
    ensures
        after.wf(),
{
    assert forall|x: usize| #[trigger] after.id_bag().count(x) > 0
        implies after.id_bag().count(x) == 1 && 1 <= x && x <= after.counter by {
        assert(before.id_bag().count(x) > 0);
    }
}

proof fn lemma_total_by_kind(s: &TaskStore)
    ensures
        s.total() == s.list_of(ListKind::Pending).len() + s.list_of(ListKind::InProgress).len()
            + s.list_of(ListKind::Finished).len(),
{
}

/// Identifier of the last task of a non-empty list.
fn id_of_last(list: &Vec<Task>) -> (r: usize)
    requires
        list@.len() > 0,
    ensures
        r == list@.last().index,
{
    list[list.len() - 1].index
}

} // verus!
