use vstd::prelude::*;

verus! {

/// Relies on wayland_sys::egl::is_lib_available: whether libwayland-egl was
/// found and its entry points resolved. The answer depends on the machine.
#[verifier::external_body]
fn egl_lib_loaded() -> (r: bool) {
    wayland_sys::egl::is_lib_available()
}

/// Checks if the wayland-egl library is available and can be used.
///
/// Creating a native window while this returns `false` is a fault.
pub fn is_available() -> (r: bool) {
    egl_lib_loaded()
}

/// One call into libwayland-egl, with the arguments it carries.
///
/// Handles are the addresses of the native objects: `surface` is the
/// `wl_proxy` of a protocol surface, `window` a `wl_egl_window`.
#[derive(Clone, Copy, Debug, PartialEq, Eq, Structural)]
pub enum EglCall {
    /// `wl_egl_window_create(surface, width, height)`, answered by a window.
    WindowCreate { surface: usize, width: i32, height: i32 },
    /// `wl_egl_window_resize(window, width, height, dx, dy)`.
    WindowResize { window: usize, width: i32, height: i32, dx: i32, dy: i32 },
    /// `wl_egl_window_get_attached_size(window)`, answered by a size.
    WindowGetAttachedSize { window: usize },
    /// `wl_egl_window_destroy(window)`.
    WindowDestroy { window: usize },
}

/// One step of the automatic cleanup of a surface, in the order given.
#[derive(Clone, Copy, Debug, PartialEq, Eq, Structural)]
pub enum Cleanup {
    /// A call into libwayland-egl.
    Egl(EglCall),
    /// The protocol surface runs its own destructor (a `destroy` request).
    DestroySurface { surface: usize },
}

/// EGL surface: a native `wl_egl_window` bound to the protocol surface `S`
/// it was created from.
///
/// The wrapper owns both. `destroy` releases the window and gives the surface
/// back; otherwise `drop_cleanup` names the window's destruction followed by
/// the surface's own.
pub struct WlEglSurface<S> {
    ptr: usize,
    surface_id: usize,
    surface: S,
}

impl<S> WlEglSurface<S> {
    /// The native window handle held.
    pub closed spec fn window(&self) -> usize {
        self.ptr
    }

    /// The native identity of the wrapped protocol surface.
    pub closed spec fn surface_id(&self) -> usize {
        self.surface_id
    }

    /// The wrapped protocol surface.
    pub closed spec fn surface(&self) -> S {
        self.surface
    }

    /// A wrapper never holds a null window.
    pub closed spec fn wf(&self) -> bool {
        self.ptr != 0
    }

    /// The call that allocates the native window for a surface whose native
    /// identity is `surface_id`; the size is passed through as given.
    pub fn create_call(surface_id: usize, width: i32, height: i32) -> (c: EglCall)
        ensures
            c == (EglCall::WindowCreate { surface: surface_id, width, height }),
    {
        EglCall::WindowCreate { surface: surface_id, width, height }
    }

    /// Binds `surface` (native identity `surface_id`) to the window that the
    /// call `create_call(surface_id, ..)` returned, taking ownership of both.
    pub fn new(surface: S, surface_id: usize, window: usize) -> (r: Self)
        requires
            window != 0,
        ensures
            r.wf(),
            r.window() == window,
            r.surface_id() == surface_id,
            r.surface() == surface,
    {
        WlEglSurface { ptr: window, surface_id, surface }
    }

    /// Destroys the EGL surface, giving back the protocol surface it was made from.
    ///
    /// Returns the surface untouched and the one call that releases the
    /// window; the surface's own destructor is not part of this path.
    pub fn destroy(self) -> (r: (S, EglCall))
        ensures
            r.0 == self.surface(),
            r.1 == (EglCall::WindowDestroy { window: self.window() }),
    {
        let WlEglSurface { ptr, surface_id: _, surface } = self;
        (surface, EglCall::WindowDestroy { window: ptr })
    }

    /// The call that fetches the current size of the EGL surface.
    pub fn get_size(&self) -> (c: EglCall)
        ensures
            c == (EglCall::WindowGetAttachedSize { window: self.window() }),
    {
        EglCall::WindowGetAttachedSize { window: self.ptr }
    }

    /// The call that resizes the EGL surface.
    ///
    /// `(width, height)` is the new size, `(dx, dy)` the displacement of the
    /// top-left corner, which lets the caller choose the fixed corner.
    pub fn resize(&self, width: i32, height: i32, dx: i32, dy: i32) -> (c: EglCall)
        ensures
            c == (EglCall::WindowResize { window: self.window(), width, height, dx, dy }),
    {
        EglCall::WindowResize { window: self.ptr, width, height, dx, dy }
    }

    /// The native window handle, for the EGL context of an OpenGL library.
    pub fn egl_surface_ptr(&self) -> (r: usize)
        ensures
            r == self.window(),
            self.wf() ==> r != 0,
    {
        self.ptr
    }

    /// The native window handle; the older name of `egl_surface_ptr`.
    pub fn egl_surfaceptr(&self) -> (r: usize)
        ensures
            r == self.window(),
            self.wf() ==> r != 0,
    {
        self.egl_surface_ptr()
    }

    /// The wrapped protocol surface, for its own operations.
    pub fn surface_ref(&self) -> (r: &S)
        ensures
            *r == self.surface(),
    {
        &self.surface
    }

    /// The native identity of the wrapped protocol surface.
    pub fn surface_ptr(&self) -> (r: usize)
        ensures
            r == self.surface_id(),
    {
        self.surface_id
    }

    /// What leaving scope does: release the window, then let the protocol
    /// surface run its own destructor.
    pub fn drop_cleanup(&self) -> (r: Vec<Cleanup>)
        ensures
            r@ == drop_steps(self.window(), self.surface_id()),
    {
        let mut v: Vec<Cleanup> = Vec::new();
        v.push(Cleanup::Egl(EglCall::WindowDestroy { window: self.ptr }));
        v.push(Cleanup::DestroySurface { surface: self.surface_id });
        v
    }
}

/// The automatic cleanup of a surface holding `window` over the protocol
/// surface `surface`.
pub open spec fn drop_steps(window: usize, surface: usize) -> Seq<Cleanup> {
    seq![
        Cleanup::Egl(EglCall::WindowDestroy { window }),
        Cleanup::DestroySurface { surface },
    ]
}

} // verus!
