pub mod archive;
pub mod file_util;
pub mod fsv;
pub mod funscript;
pub mod logging;
pub mod metadata;
pub mod semver;
pub mod text;
