//! Tools and data types for Debian release team work: package versions,
//! architectures, archive suites, package relationships, wanna-build
//! commands and the decisions taken when processing excuses and rebuilds.

pub mod architectures;
pub mod binnmu_buildinfo;
pub mod buildinfo;
pub mod cli;
pub mod config;
pub mod archive;
pub mod error;
pub mod excuses;
pub mod grep_excuses;
pub mod nmu_eso;
pub mod nmu_list;
pub mod nmu_t64;
pub mod nmu_transition;
pub mod nmu_versionskew;
pub mod order;
pub mod source_packages;
pub mod package;
pub mod prepare_binnmus;
pub mod release;
pub mod process_excuses;
pub mod process_unblocks;
pub mod strings;
pub mod text;
pub mod udd_bugs;
pub mod usrmerged;
pub mod version;
pub mod wb;

pub use error::ParseError;
