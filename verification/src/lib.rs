//! Project generation for Gradle-based Minecraft plugins: the version,
//! naming and templating rules, verified with Verus.

pub mod text;
pub mod semver;
pub mod semver_ord;
pub mod pattern;
pub mod release;
pub mod path;
pub mod cli;
pub mod gradle;
pub mod files;
