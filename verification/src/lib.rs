//! A dual-target binding generator: from one declarative description of a
//! native class (constructors, methods, argument and return types,
//! constness) it emits two artifacts that agree exactly on the binary
//! contract between them — a C-linkage trampoline layer on the native side,
//! and the matching foreign declaration block that calls into it.  Symbol
//! names, argument order, pointer and reference handling, and constness are
//! proved to line up between the two sides; `laws` states the cross-artifact
//! guarantees.

pub mod args;
pub mod class;
pub mod hash;
pub mod laws;
pub mod named;
pub mod proto;
pub mod symbols;
pub mod text;

pub use args::method;
pub use args::Function;
pub use args::FunctionArgs;
pub use args::Method;
pub use class::class;
pub use class::Class;
pub use named::generate_prelude;
pub use named::Context;
pub use named::Error;
pub use named::NamedClass;
pub use symbols::c_path_ns_part;
pub use symbols::generate_c_path;
pub use symbols::generate_cpp_path;

