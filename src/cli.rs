//! The requests a command line can make of the engine.

use vstd::prelude::*;

verus! {

/// The package manager to act on; `None` for the default one.
pub struct PackageManagerArgs {
    pub package_manager_name: Option<String>,
}

/// A request about package systems.
pub enum PacCommand {
    /// Install the packages of a package list.
    Install(PackageManagerArgs),
    /// Save the package manager's state.
    Upload(PackageManagerArgs),
    /// Install, then upload.
    Sync(PackageManagerArgs),
    /// Exclude packages from uploads.
    Exclude { target: PackageManagerArgs, packages: Vec<String> },
    /// Take previously excluded packages back in.
    Reinclude { target: PackageManagerArgs, packages: Vec<String> },
}

impl PacCommand {
    /// The package manager the request names, if any.
    pub fn target(&self) -> (r: &Option<String>)
        ensures
            r == match self {
                PacCommand::Install(a) => &a.package_manager_name,
                PacCommand::Upload(a) => &a.package_manager_name,
                PacCommand::Sync(a) => &a.package_manager_name,
                PacCommand::Exclude { target, .. } => &target.package_manager_name,
                PacCommand::Reinclude { target, .. } => &target.package_manager_name,
            },
    {
        match self {
            PacCommand::Install(a) => &a.package_manager_name,
            PacCommand::Upload(a) => &a.package_manager_name,
            PacCommand::Sync(a) => &a.package_manager_name,
            PacCommand::Exclude { target, .. } => &target.package_manager_name,
            PacCommand::Reinclude { target, .. } => &target.package_manager_name,
        }
    }

    /// The protocol operation the request runs, for install, upload and sync.
    pub fn operation(&self) -> (r: Option<crate::protocol::Operation>)
        ensures
            r == match self {
                PacCommand::Install(_) => Some(crate::protocol::Operation::Install),
                PacCommand::Upload(_) => Some(crate::protocol::Operation::Upload),
                PacCommand::Sync(_) => Some(crate::protocol::Operation::Sync),
                _ => None::<crate::protocol::Operation>,
            },
    {
        match self {
            PacCommand::Install(_) => Some(crate::protocol::Operation::Install),
            PacCommand::Upload(_) => Some(crate::protocol::Operation::Upload),
            PacCommand::Sync(_) => Some(crate::protocol::Operation::Sync),
            _ => None,
        }
    }
}

} // verus!
