//! Declarative tracking of system packages, one list of wanted package names
//! per package manager.
//!
//! The library holds the logic: the package-list file format, the definition
//! files of package managers, discovery of package systems in a folder, and the
//! install / upload / sync protocol as a state machine whose effects (running a
//! command, reading or writing a file) a driver performs.

pub mod text;
pub mod error;
pub mod command;
pub mod definition;
pub mod system;
pub mod protocol;
pub mod util;
pub mod cli;

pub use cli::{PacCommand, PackageManagerArgs};
pub use command::{CommandProxy, PackageManager, PackageManagerProxy};
pub use definition::package_managers_from_toml_string;
pub use error::{ErrorKind, PacError};
pub use protocol::{
    Effect, Event, ExclusionUpdate, ListFile, Operation, RunStatus, Session, WriteStatus,
};
pub use system::{
    new_package_system_files, package_systems_from_folder, FileContents, FolderEntry,
    PackageSystem, PackageSystems, EXCLUDED_PACKAGES_FILENAME, PACKAGES_FILENAME, PACKAGE_MANAGER_FILENAME,
};
pub use text::{read_names, render_names, split_words};
pub use util::{check_installed, check_not_installed, contains_all, contains_none, PathRemover};
