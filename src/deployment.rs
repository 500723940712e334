//! Types of the deployment client that installs the control plane itself.
use vstd::prelude::*;
use crate::principal::PrincipalId;

verus! {

/// The mode with which a program is installed.
#[derive(Clone, Copy, Debug, PartialEq, Eq, Structural, Hash)]
pub enum CanisterInstallMode {
    /// A fresh install of a new program.
    Install,
    /// Reinstalling a program that was already installed.
    Reinstall,
    /// Upgrade of an existing program.
    Upgrade,
}

impl Default for CanisterInstallMode {
    fn default() -> (r: CanisterInstallMode)
        ensures
            r == CanisterInstallMode::Install,
    {
        CanisterInstallMode::Install
    }
}

impl CanisterInstallMode {
    /// Every mode, in declaration order.
    pub fn iter() -> (r: Vec<CanisterInstallMode>)
        ensures
            r@ == seq![CanisterInstallMode::Install, CanisterInstallMode::Reinstall, CanisterInstallMode::Upgrade],
    {
        let mut r: Vec<CanisterInstallMode> = Vec::new();
        r.push(CanisterInstallMode::Install);
        r.push(CanisterInstallMode::Reinstall);
        r.push(CanisterInstallMode::Upgrade);
        assert(r@ =~= seq![CanisterInstallMode::Install, CanisterInstallMode::Reinstall, CanisterInstallMode::Upgrade]);
        r
    }
}

/// The programs that a deployment created.
#[derive(Debug)]
pub struct DeployResult {
    pub initializer: PrincipalId,
    pub proxy: PrincipalId,
    pub registry: PrincipalId,
}

} // verus!
