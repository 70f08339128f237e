//! The computing core of the hilen release scripts: how a release is named
//! and picked out of cargo metadata, which shell commands the release lanes
//! run, how update artifacts are signed, and how a command's outcome is read.

pub mod backend;
pub mod docker;
pub mod inspect;
pub mod ios;
pub mod release;
pub mod run;
pub mod sign;
pub mod text;
pub mod win;
