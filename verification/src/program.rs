//! The runtime: function, class and instance objects, and the environments a
//! program runs in.

pub mod program;
pub mod runtime;
