//! A bounded task scope: tasks are registered as they are spawned and marked
//! as they finish, and the scope may only be left once all of them have.

use vstd::prelude::*;

verus! {

/// Whether every task of a scope whose finish flags are `s` has finished.
pub open spec fn all_finished(s: Seq<bool>) -> bool {
    forall|i: int| 0 <= i < s.len() ==> #[trigger] s[i]
}

/// The join barrier of a task scope: one finish flag per spawned task.
pub struct TaskScope {
    finished: Vec<bool>,
}

impl View for TaskScope {
    type V = Seq<bool>;

    closed spec fn view(&self) -> Seq<bool> {
        self.finished@
    }
}

impl TaskScope {
    pub fn new() -> (r: TaskScope)
        ensures
            r@ == Seq::<bool>::empty(),
    {
        TaskScope { finished: Vec::new() }
    }

    /// Registers a newly spawned task and returns its number.
    pub fn spawn(&mut self) -> (id: usize)
        ensures
            final(self)@ == old(self)@.push(false),
            id == old(self)@.len(),
    {
        let id = self.finished.len();
        self.finished.push(false);
        id
    }

    /// Marks task `id` as finished.
    pub fn finish(&mut self, id: usize)
        requires
            id < old(self)@.len(),
        ensures
            final(self)@ == old(self)@.update(id as int, true),
    {
        self.finished.set(id, true);
    }

    /// Whether the scope may be left: every task spawned in it has finished.
    pub fn may_exit(&self) -> (r: bool)
        ensures
            r == all_finished(self@),
    {
        let mut i: usize = 0;
        while i < self.finished.len()
            invariant
                i <= self@.len(),
                forall|j: int| 0 <= j < i ==> #[trigger] self@[j],
            decreases self@.len() - i,
        {
            if !self.finished[i] {
                return false;
            }
            i = i + 1;
        }
        true
    }
}

/// A scope cannot be left while any task spawned in it is still running.
pub proof fn lemma_exit_waits_for_running(s: Seq<bool>, id: int)
    requires
        0 <= id < s.len(),
        !s[id],
    ensures
        !all_finished(s),
{
}

/// A scope in which `n` tasks were spawned may be left once each of them has
/// been marked finished, in whatever order.
pub proof fn lemma_exit_after_all_finish(n: nat, order: Seq<int>)
    requires
        forall|i: int| 0 <= i < n ==> #[trigger] order.contains(i),
        forall|k: int| 0 <= k < order.len() ==> 0 <= #[trigger] order[k] < n,
    ensures
        all_finished(finish_all(Seq::new(n, |i: int| false), order)),
{
    lemma_finish_all(Seq::new(n, |i: int| false), order);
}

/// The finish flags after the tasks in `order` have finished, one by one.
pub open spec fn finish_all(s: Seq<bool>, order: Seq<int>) -> Seq<bool>
    decreases order.len(),
{
    if order.len() == 0 {
        s
    } else {
        finish_all(s, order.drop_last()).update(order.last(), true)
    }
}

/// Marking tasks finished keeps the number of tasks, and a flag is set
/// afterwards exactly when it was set before or its task was marked.
proof fn lemma_finish_all(s: Seq<bool>, order: Seq<int>)
    requires
        forall|k: int| 0 <= k < order.len() ==> 0 <= #[trigger] order[k] < s.len(),
    ensures
        finish_all(s, order).len() == s.len(),
        forall|i: int|
            0 <= i < s.len() ==> (#[trigger] finish_all(s, order)[i] == (s[i] || order.contains(i))),
    decreases order.len(),
{
    if order.len() > 0 {
        let rest = order.drop_last();
        assert forall|k: int| 0 <= k < rest.len() implies 0 <= #[trigger] rest[k] < s.len() by {
            assert(rest[k] == order[k]);
        }
        lemma_finish_all(s, rest);
        assert forall|i: int| 0 <= i < s.len() implies (#[trigger] finish_all(s, order)[i] == (s[i]
            || order.contains(i))) by {
            if order.contains(i) && i != order.last() {
                let k = choose|k: int| 0 <= k < order.len() && order[k] == i;
                assert(rest[k] == i);
            }
            if rest.contains(i) {
                let k = choose|k: int| 0 <= k < rest.len() && rest[k] == i;
                assert(order[k] == i);
            }
        }
    }
}

/// The numbers the scoped tasks share: 1 to 10 in order.
pub fn demo_numbers() -> (r: Vec<i32>)
    ensures
        r@.len() == 10,
        forall|i: int| 0 <= i < 10 ==> #[trigger] r@[i] == i + 1,
{
    let mut r: Vec<i32> = Vec::new();
    let mut k: i32 = 1;
    while k <= 10
        invariant
            1 <= k <= 11,
            r@.len() == k - 1,
            forall|i: int| 0 <= i < r@.len() ==> #[trigger] r@[i] == i + 1,
        decreases 11 - k,
    {
        r.push(k);
        k = k + 1;
    }
    r
}

} // verus!
