//! Compiles declarative package specifications into the artifact set a
//! build-helper packaging toolchain consumes: control metadata, a
//! build-orchestration rules script, per-instance file plans and an optional
//! build-system dependency stanza.
//!
//! The pipeline: a decoded specification document ([`model`]) names packages
//! whose files are decoded into raw [`package`] values; fragment references
//! are resolved into a table ([`resolver`]); each package is expanded across
//! its source's variants into concrete instances ([`package`]); every
//! instance is validated with source-located diagnostics ([`validate`]); and
//! the per-source output plan — paths, control header, compatibility marker,
//! rules script and dependency stanza — is synthesized ([`driver`],
//! [`render`]), with per-instance files going through a lazy
//! create-on-first-write handle ([`lazyfile`]).

pub mod driver;
pub mod lazyfile;
pub mod model;
pub mod package;
pub mod render;
pub mod resolver;
pub mod types;
pub mod validate;
pub mod version;
