//! EGL surfaces on top of wayland surfaces.
//!
//! A `WlEglSurface` ties one native `wl_egl_window` handle to the protocol
//! surface it was created from. The calls into `libwayland-egl` are values
//! (`EglCall`) that the caller carries out; `CountingEgl` carries them out in
//! memory and counts them.
pub mod egl;
pub mod counting;
pub mod laws;
