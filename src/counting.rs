use vstd::prelude::*;
use std::collections::HashMap;
use crate::egl::{Cleanup, EglCall};

verus! {

broadcast use vstd::std_specs::hash::group_hash_axioms;

/// A live native window as the library keeps it.
#[derive(Clone, Copy, Debug, PartialEq, Eq, Structural)]
pub struct Window {
    pub surface: usize,
    pub width: i32,
    pub height: i32,
}

/// What a call into libwayland-egl answers.
#[derive(Clone, Copy, Debug, PartialEq, Eq, Structural)]
pub enum EglReply {
    /// The window that `wl_egl_window_create` returned.
    Window(usize),
    /// The size that `wl_egl_window_get_attached_size` wrote back.
    Size(i32, i32),
    /// The call returns nothing.
    Done,
}

/// The state of the native library as seen through its entry points, with a
/// record of every destruction.
pub struct EglState {
    /// Windows created and not yet destroyed.
    pub live: Map<usize, Window>,
    /// The handle the next creation returns.
    pub next: nat,
    /// Every window destroyed, in order.
    pub destroyed: Seq<usize>,
    /// Every protocol surface destroyed, in order.
    pub surfaces_destroyed: Seq<usize>,
}

impl EglState {
    /// Handles are handed out from 1 upwards: every live or destroyed window
    /// was handed out before `next`.
    pub open spec fn wf(self) -> bool {
        &&& 1 <= self.next <= usize::MAX
        &&& forall|w: usize| #[trigger] self.live.contains_key(w) ==> 1 <= w < self.next
        &&& forall|i: int|
            0 <= i < self.destroyed.len() ==> 1 <= #[trigger] self.destroyed[i] < self.next
    }

    /// Whether the library may be given `c` in this state: a window is only
    /// used while live, and handles do not run out.
    pub open spec fn accepts(self, c: EglCall) -> bool {
        match c {
            EglCall::WindowCreate { .. } => self.next < usize::MAX,
            EglCall::WindowResize { window, .. } => self.live.contains_key(window),
            EglCall::WindowGetAttachedSize { window } => self.live.contains_key(window),
            EglCall::WindowDestroy { window } => self.live.contains_key(window),
        }
    }

    /// The state after `c`, and the answer to it. A window reports the size
    /// it was last created or resized with; the displacement is not part of
    /// the size.
    pub open spec fn step(self, c: EglCall) -> (EglState, EglReply) {
        match c {
            EglCall::WindowCreate { surface, width, height } => (
                EglState {
                    live: self.live.insert(self.next as usize, Window { surface, width, height }),
                    next: self.next + 1,
                    ..self
                },
                EglReply::Window(self.next as usize),
            ),
            EglCall::WindowResize { window, width, height, .. } => (
                EglState {
                    live: self.live.insert(
                        window,
                        Window { surface: self.live[window].surface, width, height },
                    ),
                    ..self
                },
                EglReply::Done,
            ),
            EglCall::WindowGetAttachedSize { window } => (
                self,
                EglReply::Size(self.live[window].width, self.live[window].height),
            ),
            EglCall::WindowDestroy { window } => (
                EglState {
                    live: self.live.remove(window),
                    destroyed: self.destroyed.push(window),
                    ..self
                },
                EglReply::Done,
            ),
        }
    }

    /// The state after one step of a cleanup.
    pub open spec fn cleanup(self, c: Cleanup) -> EglState {
        match c {
            Cleanup::Egl(call) => self.step(call).0,
            Cleanup::DestroySurface { surface } => EglState {
                surfaces_destroyed: self.surfaces_destroyed.push(surface),
                ..self
            },
        }
    }
}

/// How many times `x` occurs in `s`.
pub open spec fn count_of(s: Seq<usize>, x: usize) -> nat
    decreases s.len(),
{
    if s.len() == 0 {
        0
    } else {
        count_of(s.drop_last(), x) + if s.last() == x {
            1nat
        } else {
            0nat
        }
    }
}

/// An in-memory libwayland-egl that carries out `EglCall`s and counts the
/// destructions of windows and of protocol surfaces.
pub struct CountingEgl {
    windows: HashMap<usize, Window>,
    next: usize,
    destroyed: Vec<usize>,
    surfaces_destroyed: Vec<usize>,
}

impl View for CountingEgl {
    type V = EglState;

    closed spec fn view(&self) -> EglState {
        EglState {
            live: self.windows@,
            next: self.next as nat,
            destroyed: self.destroyed@,
            surfaces_destroyed: self.surfaces_destroyed@,
        }
    }
}


impl CountingEgl {
    /// A library with no window created yet.
    pub fn new() -> (r: Self)
        ensures
            r@.wf(),
            r@.live == Map::<usize, Window>::empty(),
            r@.next == 1,
            r@.destroyed == Seq::<usize>::empty(),
            r@.surfaces_destroyed == Seq::<usize>::empty(),
    {
        CountingEgl {
            windows: HashMap::new(),
            next: 1,
            destroyed: Vec::new(),
            surfaces_destroyed: Vec::new(),
        }
    }

    /// Carries out `c` and answers it.
    pub fn perform(&mut self, c: EglCall) -> (r: EglReply)
        requires
            old(self)@.wf(),
            old(self)@.accepts(c),
        ensures
            final(self)@.wf(),
            (final(self)@, r) == old(self)@.step(c),
    {
        proof {
            lemma_step_wf(self@, c);
        }
        match c {
            EglCall::WindowCreate { surface, width, height } => {
                let w = self.next;
                self.windows.insert(w, Window { surface, width, height });
                self.next = w + 1;
                EglReply::Window(w)
            },
            EglCall::WindowResize { window, width, height, .. } => {
                let old_w = *self.windows.get(&window).unwrap();
                self.windows.insert(window, Window { surface: old_w.surface, width, height });
                EglReply::Done
            },
            EglCall::WindowGetAttachedSize { window } => {
                let w = *self.windows.get(&window).unwrap();
                EglReply::Size(w.width, w.height)
            },
            EglCall::WindowDestroy { window } => {
                self.windows.remove(&window);
                self.destroyed.push(window);
                EglReply::Done
            },
        }
    }

    /// Carries out one step of a cleanup.
    pub fn perform_cleanup(&mut self, c: Cleanup)
        requires
            old(self)@.wf(),
            c matches Cleanup::Egl(call) ==> old(self)@.accepts(call),
        ensures
            final(self)@.wf(),
            final(self)@ == old(self)@.cleanup(c),
    {
        proof {
            lemma_cleanup_wf(self@, c);
        }
        match c {
            Cleanup::Egl(call) => {
                self.perform(call);
            },
            Cleanup::DestroySurface { surface } => {
                self.surfaces_destroyed.push(surface);
            },
        }
    }

    /// Whether `window` was created and not destroyed since.
    pub fn is_live(&self, window: usize) -> (r: bool)
        ensures
            r == self@.live.contains_key(window),
    {
        self.windows.contains_key(&window)
    }

    /// How many times `window` was destroyed.
    pub fn destroy_count(&self, window: usize) -> (r: usize)
        ensures
            r == count_of(self@.destroyed, window),
    {
        count_in(&self.destroyed, window)
    }

    /// How many times the protocol surface `surface` was destroyed.
    pub fn surface_destroy_count(&self, surface: usize) -> (r: usize)
        ensures
            r == count_of(self@.surfaces_destroyed, surface),
    {
        count_in(&self.surfaces_destroyed, surface)
    }
}

/// Every step that the library accepts keeps its state well formed.
pub proof fn lemma_step_wf(s: EglState, c: EglCall)
    requires
        s.wf(),
        s.accepts(c),
    ensures
        s.step(c).0.wf(),
{
    let t = s.step(c).0;
    assert forall|w: usize| #[trigger] t.live.contains_key(w) implies 1 <= w < t.next by {
        if c is WindowCreate && w != s.next as usize {
            assert(s.live.contains_key(w));
        }
    }
    assert forall|i: int| 0 <= i < t.destroyed.len() implies 1 <= #[trigger] t.destroyed[i]
        < t.next by {
        if i < s.destroyed.len() {
            assert(t.destroyed[i] == s.destroyed[i]);
        }
    }
}

/// Every cleanup step that the library accepts keeps its state well formed.
pub proof fn lemma_cleanup_wf(s: EglState, c: Cleanup)
    requires
        s.wf(),
        c matches Cleanup::Egl(call) ==> s.accepts(call),
    ensures
        s.cleanup(c).wf(),
{
    if let Cleanup::Egl(call) = c {
        lemma_step_wf(s, call);
    }
}

proof fn lemma_count_of_bound(s: Seq<usize>, x: usize)
    ensures
        count_of(s, x) <= s.len(),
    decreases s.len(),
{
    if s.len() > 0 {
        lemma_count_of_bound(s.drop_last(), x);
    }
}

fn count_in(v: &Vec<usize>, x: usize) -> (r: usize)
    ensures
        r == count_of(v@, x),
{
    let mut n: usize = 0;
    let mut i: usize = 0;
    while i < v.len()
        invariant
            i <= v.len(),
            n == count_of(v@.take(i as int), x),
        decreases v.len() - i,
    {
        assert(v@.take(i as int + 1).drop_last() =~= v@.take(i as int));
        proof {
            lemma_count_of_bound(v@.take(i as int), x);
        }
        if v[i] == x {
            n = n + 1;
        }
        i = i + 1;
    }
    assert(v@.take(i as int) =~= v@);
    n
}

} // verus!
