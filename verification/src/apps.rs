//! Descriptors for application and package checks.

use vstd::prelude::*;

verus! {

/// How a package or application was installed on the target machine.
///
/// `PackageManager` and `SystemPackageManager` are two spellings of the same
/// source that the public interface has carried; both are kept.
#[derive(Clone, Copy, Debug, PartialEq, Eq, Structural)]
pub enum InstallMethod {
    Default,
    PackageManager,
    SystemPackageManager,
    Snap,
    Flatpak,
    ManualInstall,
}

/// An older name for [`InstallMethod`], kept so both spellings of the API work.
pub type AppInstallMethod = InstallMethod;

/// Identifying data for an application or package check: the name a package
/// manager knows the application by, and where it came from.
#[derive(Debug)]
pub struct AppData {
    pub install_method: InstallMethod,
    pub name: String,
}

impl Clone for AppData {
    fn clone(&self) -> (r: Self)
        ensures
            r == *self,
    {
        AppData { install_method: self.install_method, name: self.name.clone() }
    }
}

impl AppData {
    /// Build the descriptor for an application known by `name`, installed
    /// through `install_method`.
    pub fn new(name: &str, install_method: InstallMethod) -> (r: AppData)
        ensures
            r.name@ == name@,
            r.install_method == install_method,
    {
        AppData { install_method, name: name.to_owned() }
    }
}

/// A boolean answer from a collaborator that may also be unable to answer.
#[derive(Clone, Copy, Debug, PartialEq, Eq, Structural)]
pub enum TripleBool {
    Known(bool),
    Unknown,
}

} // verus!
