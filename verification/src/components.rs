//! The pure state of the presentation components: what each widget shows
//! is computed and verified here; the terminal drawing around it lives
//! with the host.

pub mod screen;
pub mod status;
