//! Run the executable of a crate at the version asked for, installing it
//! first where it is missing.
//!
//! The library decides; it neither reads nor writes anything. A caller
//! gathers what the machine has to say, asks the library what follows from
//! it, and carries that out:
//!
//! - [`cli`] reads the command line;
//! - [`target`] reads a crate specification such as `ripgrep@14`;
//! - [`version`] holds versions and requirements, whose grammar and order
//!   are the `semver` crate's;
//! - [`registry`] chooses a version from what the registry publishes;
//! - [`paths`] says where executables are kept and looked for;
//! - [`installer`] plans the run of the external installer, in an
//!   environment that the ambient one cannot redirect, and the placement of
//!   what it leaves behind;
//! - [`runner`] strings these together, from the command line to the
//!   executable that is run;
//! - [`text`] holds the character-level helpers.

pub mod cli;
pub mod installer;
pub mod paths;
pub mod registry;
pub mod runner;
pub mod target;
pub mod text;
pub mod version;
