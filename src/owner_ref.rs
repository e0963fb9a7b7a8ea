//! Shared ownership: one immutable buffer shared by counted handles, in a
//! single-threaded form (`Rc`) and a form that may cross threads (`Arc`).

use std::rc::Rc;
use std::sync::Arc;
use vstd::prelude::*;

verus! {

/// The abstract state of a pool of handles: what every handle reads, and
/// how many handles are held.
pub struct HandleState {
    pub contents: Seq<i32>,
    pub count: nat,
}

/// The state after one more handle has been cloned.
pub open spec fn cloned(s: HandleState) -> HandleState {
    HandleState { contents: s.contents, count: s.count + 1 }
}

/// The state after one clone has been dropped; the first handle is never
/// dropped, so a pool of one handle stays as it is.
pub open spec fn dropped(s: HandleState) -> HandleState {
    if s.count > 1 {
        HandleState { contents: s.contents, count: (s.count - 1) as nat }
    } else {
        s
    }
}

/// The state after `n` clones.
pub open spec fn cloned_times(s: HandleState, n: nat) -> HandleState
    decreases n,
{
    if n == 0 {
        s
    } else {
        cloned(cloned_times(s, (n - 1) as nat))
    }
}

/// The state after `n` drops.
pub open spec fn dropped_times(s: HandleState, n: nat) -> HandleState
    decreases n,
{
    if n == 0 {
        s
    } else {
        dropped(dropped_times(s, (n - 1) as nat))
    }
}

/// Cloning a handle `n` times adds `n` handles and leaves what every handle
/// reads, and so its length, as it was.
pub proof fn lemma_cloned_times(s: HandleState, n: nat)
    ensures
        cloned_times(s, n) == (HandleState { contents: s.contents, count: s.count + n }),
    decreases n,
{
    if n > 0 {
        lemma_cloned_times(s, (n - 1) as nat);
    }
}

/// `n` drops from a pool of more than `n` handles take `n` away and leave the
/// contents as they were.
proof fn lemma_dropped_times(s: HandleState, n: nat)
    requires
        s.count > n,
    ensures
        dropped_times(s, n) == (HandleState { contents: s.contents, count: (s.count - n) as nat }),
    decreases n,
{
    if n > 0 {
        lemma_dropped_times(s, (n - 1) as nat);
    }
}

/// Cloning a handle `n` times and then dropping `n` clones gives back the
/// pool as it was: the same contents and the same number of handles.
pub proof fn lemma_clone_drop_balance(s: HandleState, n: nat)
    requires
        s.count >= 1,
    ensures
        dropped_times(cloned_times(s, n), n) == s,
{
    lemma_cloned_times(s, n);
    lemma_dropped_times(cloned_times(s, n), n);
}

/// Relies on `Rc::clone`: the new handle points to the same allocation as
/// `h`, so it reads the same buffer.
#[verifier::external_body]
fn share_rc(h: &Rc<[i32; 3]>) -> (r: Rc<[i32; 3]>)
    ensures
        r@ == h@,
{
    Rc::clone(h)
}

/// Handles to one buffer of three integers, counted by `Rc`: the first
/// handle and the clones made from it.
pub struct RcHandles {
    first: Rc<[i32; 3]>,
    clones: Vec<Rc<[i32; 3]>>,
}

impl View for RcHandles {
    type V = HandleState;

    closed spec fn view(&self) -> HandleState {
        HandleState { contents: self.first@, count: self.clones@.len() + 1 }
    }
}

impl RcHandles {
    /// Every clone reads the same buffer as the first handle.
    pub closed spec fn wf(&self) -> bool {
        forall|i: int| 0 <= i < self.clones@.len() ==> (#[trigger] self.clones@[i])@ == self.first@
    }

    pub fn new(data: [i32; 3]) -> (r: RcHandles)
        ensures
            r.wf(),
            r@ == (HandleState { contents: data@, count: 1 }),
    {
        RcHandles { first: Rc::new(data), clones: Vec::new() }
    }

    /// Clones one more handle to the buffer and keeps it.
    pub fn clone_handle(&mut self)
        requires
            old(self).wf(),
            old(self)@.count < usize::MAX,
        ensures
            final(self).wf(),
            final(self)@ == cloned(old(self)@),
    {
        let h = share_rc(&self.first);
        self.clones.push(h);
    }

    /// Drops one clone, if one is held. Returns whether one was.
    pub fn drop_clone(&mut self) -> (r: bool)
        requires
            old(self).wf(),
        ensures
            final(self).wf(),
            final(self)@ == dropped(old(self)@),
            r == (old(self)@.count > 1),
    {
        match self.clones.pop() {
            Some(_) => true,
            None => false,
        }
    }

    /// The number of handles held.
    pub fn handle_count(&self) -> (r: usize)
        requires
            self@.count <= usize::MAX,
        ensures
            r == self@.count,
    {
        self.clones.len() + 1
    }

    /// A fresh clone of the `i`-th handle, the first being number 0.
    pub fn handle(&self, i: usize) -> (r: Rc<[i32; 3]>)
        requires
            self.wf(),
            i < self@.count,
        ensures
            r@ == self@.contents,
    {
        if i == 0 {
            share_rc(&self.first)
        } else {
            share_rc(&self.clones[i - 1])
        }
    }

    /// The length of the buffer, read through a freshly cloned handle.
    pub fn read_len(&self) -> (r: usize)
        ensures
            r == self@.contents.len(),
    {
        let h = share_rc(&self.first);
        h.len()
    }
}

/// Shares `[1, 2, 3]` through `Rc`, clones a second handle, and returns the
/// length read through a third.
pub fn l_rc() -> (r: usize)
    ensures
        r == 3,
{
    let mut handles = RcHandles::new([1, 2, 3]);
    handles.clone_handle();
    handles.read_len()
}

/// Relies on `Arc::clone`: the new handle points to the same allocation as
/// `h`, so it reads the same buffer.
#[verifier::external_body]
fn share_arc(h: &Arc<[i32; 3]>) -> (r: Arc<[i32; 3]>)
    ensures
        r@ == h@,
{
    Arc::clone(h)
}

/// Handles to one buffer of three integers, counted atomically by `Arc` so
/// that they may be handed to other threads: the first handle and the clones
/// made from it.
pub struct ArcHandles {
    first: Arc<[i32; 3]>,
    clones: Vec<Arc<[i32; 3]>>,
}

impl View for ArcHandles {
    type V = HandleState;

    closed spec fn view(&self) -> HandleState {
        HandleState { contents: self.first@, count: self.clones@.len() + 1 }
    }
}

impl ArcHandles {
    /// Every clone reads the same buffer as the first handle.
    pub closed spec fn wf(&self) -> bool {
        forall|i: int| 0 <= i < self.clones@.len() ==> (#[trigger] self.clones@[i])@ == self.first@
    }

    pub fn new(data: [i32; 3]) -> (r: ArcHandles)
        ensures
            r.wf(),
            r@ == (HandleState { contents: data@, count: 1 }),
    {
        ArcHandles { first: Arc::new(data), clones: Vec::new() }
    }

    /// Clones one more handle to the buffer and keeps it.
    pub fn clone_handle(&mut self)
        requires
            old(self).wf(),
            old(self)@.count < usize::MAX,
        ensures
            final(self).wf(),
            final(self)@ == cloned(old(self)@),
    {
        let h = share_arc(&self.first);
        self.clones.push(h);
    }

    /// Drops one clone, if one is held. Returns whether one was.
    pub fn drop_clone(&mut self) -> (r: bool)
        requires
            old(self).wf(),
        ensures
            final(self).wf(),
            final(self)@ == dropped(old(self)@),
            r == (old(self)@.count > 1),
    {
        match self.clones.pop() {
            Some(_) => true,
            None => false,
        }
    }

    /// The number of handles held.
    pub fn handle_count(&self) -> (r: usize)
        requires
            self@.count <= usize::MAX,
        ensures
            r == self@.count,
    {
        self.clones.len() + 1
    }

    /// A fresh clone of the `i`-th handle, the first being number 0.
    pub fn handle(&self, i: usize) -> (r: Arc<[i32; 3]>)
        requires
            self.wf(),
            i < self@.count,
        ensures
            r@ == self@.contents,
    {
        if i == 0 {
            share_arc(&self.first)
        } else {
            share_arc(&self.clones[i - 1])
        }
    }

    /// The length of the buffer, read through a freshly cloned handle.
    pub fn read_len(&self) -> (r: usize)
        ensures
            r == self@.contents.len(),
    {
        let h = share_arc(&self.first);
        h.len()
    }
}

/// Shares `[1, 2, 3]` through `Arc`, clones a second handle, and returns the
/// length read through a third.
pub fn l_arc() -> (r: usize)
    ensures
        r == 3,
{
    let mut handles = ArcHandles::new([1, 2, 3]);
    handles.clone_handle();
    handles.read_len()
}

/// Runs the `Rc` and the `Arc` demonstrations and returns the lengths that
/// each read.
pub fn l_owner_ref() -> (r: (usize, usize))
    ensures
        r == (3usize, 3usize),
{
    let rc_len = l_rc();
    let arc_len = l_arc();
    (rc_len, arc_len)
}

} // verus!
