use vstd::prelude::*;
use crate::counting::{count_of, EglReply, EglState, Window};
use crate::egl::{drop_steps, Cleanup, EglCall};

verus! {

/// The state after carrying out `calls` in order.
pub open spec fn run(s: EglState, calls: Seq<EglCall>) -> EglState
    decreases calls.len(),
{
    if calls.len() == 0 {
        s
    } else {
        run(s, calls.drop_last()).step(calls.last()).0
    }
}

/// The state after carrying out the cleanup `steps` in order.
pub open spec fn run_cleanup(s: EglState, steps: Seq<Cleanup>) -> EglState
    decreases steps.len(),
{
    if steps.len() == 0 {
        s
    } else {
        run_cleanup(s, steps.drop_last()).cleanup(steps.last())
    }
}

/// A call that a live surface over `window` makes between creation and
/// destruction: a resize or a size query.
pub open spec fn is_surface_op(c: EglCall, window: usize) -> bool {
    ||| c matches EglCall::WindowResize { window: w, .. } && w == window
    ||| c matches EglCall::WindowGetAttachedSize { window: w } && w == window
}

/// The size set by the last resize in `ops`, or `size` if there is none.
pub open spec fn last_size(ops: Seq<EglCall>, size: (i32, i32)) -> (i32, i32)
    decreases ops.len(),
{
    if ops.len() == 0 {
        size
    } else {
        match ops.last() {
            EglCall::WindowResize { width, height, .. } => (width, height),
            _ => last_size(ops.drop_last(), size),
        }
    }
}

/// How a surface ends: handed back by `destroy`, or dropped.
pub open spec fn ending(window: usize, surface: usize, explicit: bool) -> Seq<Cleanup> {
    if explicit {
        seq![Cleanup::Egl(EglCall::WindowDestroy { window })]
    } else {
        drop_steps(window, surface)
    }
}

proof fn lemma_count_of_absent(s: Seq<usize>, x: usize)
    requires
        forall|i: int| 0 <= i < s.len() ==> s[i] != x,
    ensures
        count_of(s, x) == 0,
    decreases s.len(),
{
    if s.len() > 0 {
        lemma_count_of_absent(s.drop_last(), x);
    }
}

proof fn lemma_count_of_push(s: Seq<usize>, y: usize, x: usize)
    ensures
        count_of(s.push(y), x) == count_of(s, x) + if y == x {
            1nat
        } else {
            0nat
        },
{
    assert(s.push(y).drop_last() =~= s);
}

/// Resizes and size queries on a live window keep it live, leave the rest
/// of the library alone, and leave it at the size of the last resize.
proof fn lemma_run_ops(s: EglState, window: usize, ops: Seq<EglCall>)
    requires
        s.wf(),
        s.live.contains_key(window),
        forall|i: int| 0 <= i < ops.len() ==> is_surface_op(#[trigger] ops[i], window),
    ensures
        run(s, ops).wf(),
        run(s, ops).live.contains_key(window),
        run(s, ops).live[window].surface == s.live[window].surface,
        (run(s, ops).live[window].width, run(s, ops).live[window].height) == last_size(
            ops,
            (s.live[window].width, s.live[window].height),
        ),
        run(s, ops).next == s.next,
        run(s, ops).destroyed == s.destroyed,
        run(s, ops).surfaces_destroyed == s.surfaces_destroyed,
    decreases ops.len(),
{
    if ops.len() > 0 {
        let init = ops.drop_last();
        assert forall|i: int| 0 <= i < init.len() implies is_surface_op(
            #[trigger] init[i],
            window,
        ) by {
            assert(init[i] == ops[i]);
        }
        lemma_run_ops(s, window, init);
        assert(is_surface_op(ops[ops.len() - 1], window));
        crate::counting::lemma_step_wf(run(s, init), ops.last());
    }
}

/// Creating a window answers a fresh non-null handle: one neither live nor
/// ever destroyed, so never handed out before.
pub proof fn lemma_create_is_fresh(s: EglState, surface: usize, width: i32, height: i32)
    requires
        s.wf(),
        s.accepts(EglCall::WindowCreate { surface, width, height }),
    ensures
        ({
            let (t, r) = s.step(EglCall::WindowCreate { surface, width, height });
            &&& r matches EglReply::Window(w)
            &&& w != 0
            &&& !s.live.contains_key(w)
            &&& count_of(s.destroyed, w) == 0
            &&& t.live.contains_key(w)
            &&& t.live[w] == Window { surface, width, height }
        }),
{
    lemma_count_of_absent(s.destroyed, s.next as usize);
}

/// Querying the size right after creation gives the size asked for.
pub proof fn lemma_size_after_create(s: EglState, surface: usize, width: i32, height: i32)
    requires
        s.wf(),
        s.accepts(EglCall::WindowCreate { surface, width, height }),
    ensures
        ({
            let (t, r) = s.step(EglCall::WindowCreate { surface, width, height });
            &&& r matches EglReply::Window(w)
            &&& t.accepts(EglCall::WindowGetAttachedSize { window: w })
            &&& t.step(EglCall::WindowGetAttachedSize { window: w }).1 == EglReply::Size(
                width,
                height,
            )
        }),
{
}

/// After any run of resizes and size queries on a created window, the size
/// reported is that of the last resize (the displacements play no part), or
/// the size of creation if there was no resize.
pub proof fn lemma_size_after_resizes(
    s: EglState,
    surface: usize,
    width: i32,
    height: i32,
    ops: Seq<EglCall>,
)
    requires
        s.wf(),
        s.accepts(EglCall::WindowCreate { surface, width, height }),
        forall|i: int| 0 <= i < ops.len() ==> is_surface_op(#[trigger] ops[i], s.next as usize),
    ensures
        ({
            let (t, r) = s.step(EglCall::WindowCreate { surface, width, height });
            let w = s.next as usize;
            let u = run(t, ops);
            let (fw, fh) = last_size(ops, (width, height));
            &&& r == EglReply::Window(w)
            &&& u.accepts(EglCall::WindowGetAttachedSize { window: w })
            &&& u.step(EglCall::WindowGetAttachedSize { window: w }).1 == EglReply::Size(fw, fh)
        }),
{
    let t = s.step(EglCall::WindowCreate { surface, width, height }).0;
    crate::counting::lemma_step_wf(s, EglCall::WindowCreate { surface, width, height });
    lemma_run_ops(t, s.next as usize, ops);
}

/// The state at the end of a surface's life: created over `surface`, put
/// through `ops`, then ended by `destroy` (`explicit`) or by being dropped.
pub open spec fn lifetime(
    s: EglState,
    surface: usize,
    width: i32,
    height: i32,
    ops: Seq<EglCall>,
    explicit: bool,
) -> EglState {
    let t = s.step(EglCall::WindowCreate { surface, width, height }).0;
    run_cleanup(run(t, ops), ending(s.next as usize, surface, explicit))
}

proof fn lemma_lifetime(
    s: EglState,
    surface: usize,
    width: i32,
    height: i32,
    ops: Seq<EglCall>,
    explicit: bool,
)
    requires
        s.wf(),
        s.accepts(EglCall::WindowCreate { surface, width, height }),
        forall|i: int| 0 <= i < ops.len() ==> is_surface_op(#[trigger] ops[i], s.next as usize),
    ensures
        ({
            let e = lifetime(s, surface, width, height, ops, explicit);
            &&& e.wf()
            &&& e.next == s.next + 1
            &&& !e.live.contains_key(s.next as usize)
            &&& e.destroyed == s.destroyed.push(s.next as usize)
            &&& e.surfaces_destroyed == if explicit {
                s.surfaces_destroyed
            } else {
                s.surfaces_destroyed.push(surface)
            }
        }),
{
    let w = s.next as usize;
    let c = EglCall::WindowCreate { surface, width, height };
    let t = s.step(c).0;
    crate::counting::lemma_step_wf(s, c);
    lemma_run_ops(t, w, ops);
    let u = run(t, ops);
    let d = Cleanup::Egl(EglCall::WindowDestroy { window: w });
    let steps = ending(w, surface, explicit);
    crate::counting::lemma_step_wf(u, EglCall::WindowDestroy { window: w });
    if explicit {
        assert(steps.drop_last() =~= Seq::<Cleanup>::empty());
        assert(run_cleanup(u, steps.drop_last()) == u);
        assert(steps.last() == d);
    } else {
        assert(steps.drop_last() =~= seq![d]);
        assert(steps.drop_last().drop_last() =~= Seq::<Cleanup>::empty());
        assert(run_cleanup(u, steps.drop_last().drop_last()) == u);
        assert(steps.drop_last().last() == d);
        assert(run_cleanup(u, steps.drop_last()) == u.cleanup(d));
    }
}

/// Exactly one native destruction happens to a window over a surface's
/// whole life, whether the surface is handed back or dropped.
pub proof fn lemma_one_destroy_per_surface(
    s: EglState,
    surface: usize,
    width: i32,
    height: i32,
    ops: Seq<EglCall>,
    explicit: bool,
)
    requires
        s.wf(),
        s.accepts(EglCall::WindowCreate { surface, width, height }),
        forall|i: int| 0 <= i < ops.len() ==> is_surface_op(#[trigger] ops[i], s.next as usize),
    ensures
        count_of(lifetime(s, surface, width, height, ops, explicit).destroyed, s.next as usize)
            == 1,
{
    lemma_lifetime(s, surface, width, height, ops, explicit);
    lemma_count_of_absent(s.destroyed, s.next as usize);
    lemma_count_of_push(s.destroyed, s.next as usize, s.next as usize);
}

/// The protocol surface's own destructor runs once when the surface is
/// dropped, and not at all when `destroy` hands it back.
pub proof fn lemma_surface_destroyed_only_on_drop(
    s: EglState,
    surface: usize,
    width: i32,
    height: i32,
    ops: Seq<EglCall>,
    explicit: bool,
)
    requires
        s.wf(),
        s.accepts(EglCall::WindowCreate { surface, width, height }),
        forall|i: int| 0 <= i < ops.len() ==> is_surface_op(#[trigger] ops[i], s.next as usize),
    ensures
        count_of(lifetime(s, surface, width, height, ops, explicit).surfaces_destroyed, surface)
            == count_of(s.surfaces_destroyed, surface) + if explicit {
            0nat
        } else {
            1nat
        },
{
    lemma_lifetime(s, surface, width, height, ops, explicit);
    lemma_count_of_push(s.surfaces_destroyed, surface, surface);
}

/// A surface handed back by `destroy` can be wrapped again at once: the
/// library accepts a new creation over it, answers a window other than the
/// one just destroyed, and reports the new size.
pub proof fn lemma_rewrap_after_destroy(
    s: EglState,
    surface: usize,
    width: i32,
    height: i32,
    ops: Seq<EglCall>,
    width2: i32,
    height2: i32,
)
    requires
        s.wf(),
        s.next + 1 < usize::MAX,
        forall|i: int| 0 <= i < ops.len() ==> is_surface_op(#[trigger] ops[i], s.next as usize),
    ensures
        ({
            let e = lifetime(s, surface, width, height, ops, true);
            let c = EglCall::WindowCreate { surface, width: width2, height: height2 };
            let (t, r) = e.step(c);
            &&& e.accepts(c)
            &&& r matches EglReply::Window(w2)
            &&& w2 != 0
            &&& w2 != s.next as usize
            &&& t.step(EglCall::WindowGetAttachedSize { window: w2 }).1 == EglReply::Size(
                width2,
                height2,
            )
        }),
{
    lemma_lifetime(s, surface, width, height, ops, true);
    let e = lifetime(s, surface, width, height, ops, true);
    lemma_run_ops(s.step(EglCall::WindowCreate { surface, width, height }).0, s.next as usize, ops);
    lemma_size_after_create(e, surface, width2, height2);
}

} // verus!
