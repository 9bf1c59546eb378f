//! Build-time descriptor compiler for a plugin-hosting runtime.
//!
//! A host build pipeline hands each annotated type declaration to one of two
//! generation units.  The descriptor unit reads a `key = "value"` annotation
//! block, validates it against a fixed four-field schema, and emits the source
//! text of an implementation of the `Plugin` capability interface.  The
//! subscription unit reads a comma-separated identifier list and emits an
//! implementation of the `PluginSubscriptions` capability interface.  Both
//! units are pure: each turns annotation data into generated source text or a
//! precise diagnostic, with no side effects and no state shared between
//! invocations.

mod strops;
pub mod ann;
pub mod descriptor;
pub mod subscriptions;
pub mod emit;
pub mod handler;
pub mod laws;
pub mod driver;
