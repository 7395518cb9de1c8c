//! The maintenance tasks of the workspace: which commands they run, and how a release is judged.
//!
//! Nothing here runs a program, reads the workspace or asks the registry. The functions take what
//! came of that as plain values, and return what is to be done next.

pub mod command;
pub mod features;
pub mod laws;
pub mod release;
pub mod steps;
pub mod version;

pub use self::command::Invocation;
pub use self::features::asyncband_features;
pub use self::release::classify_release_type;
pub use self::release::find_latest_release;
pub use self::release::CommandSemver;
pub use self::release::SemverReleaseType;
pub use self::steps::CommandBench;
pub use self::steps::CommandBuild;
pub use self::steps::CommandCheck;
pub use self::steps::CommandLint;
pub use self::steps::CommandMiri;
pub use self::steps::CommandTest;
pub use self::version::Version;
