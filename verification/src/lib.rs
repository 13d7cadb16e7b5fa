//! The decisions behind the bottom-screen companion panel: what each touch
//! reaches, which client pixels are drawn, how an app is launched and killed,
//! and how the renderer survives a GPU reset.
//!
//! Everything here works on plain values. The devices, windows and processes
//! that the decisions are about live in the program around this library.

pub mod text;
pub mod touch;
pub mod layers;
pub mod render_loop;
pub mod config;
pub mod defaults;
pub mod theme;
pub mod launch;
pub mod abort_guard;
pub mod gpu_renderer;
pub mod drm_platform;
pub mod pixel;
