//! Asking the user for the permissions that the listener needs.

use vstd::prelude::*;

use crate::actions::text_option;
use crate::options::{trim, trimmed_lower};
use crate::text::{join, lower, same};

verus! {

/// A permission that the listener needs.
#[derive(Debug, Clone, Copy, PartialEq, Eq, Structural)]
pub enum Permission {
    Accessibility,
    InputMonitoring,
}

impl Permission {
    /// The name of the permission.
    pub open spec fn name(self) -> Seq<char> {
        match self {
            Permission::Accessibility => "Accessibility"@,
            Permission::InputMonitoring => "Input Monitoring"@,
        }
    }

    /// The name of the permission.
    pub fn as_str(self) -> (r: &'static str)
        ensures
            r@ == self.name(),
    {
        match self {
            Permission::Accessibility => "Accessibility",
            Permission::InputMonitoring => "Input Monitoring",
        }
    }

    /// What the user is told where the permission was not granted.
    pub fn refusal(self) -> (r: String)
        ensures
            r@ == self.name() + " permission was not granted"@,
    {
        join(self.as_str(), " permission was not granted")
    }
}

/// What the user answered when asked to grant a permission: to give up, by `q` or by the end
/// of the input, or to look again.
pub open spec fn gives_up(line: Option<Seq<char>>) -> bool {
    match line {
        None => true,
        Some(line) => lower(trim(line)) == "q"@,
    }
}

/// Does the user give up?
pub fn user_gives_up(line: &Option<String>) -> (r: bool)
    ensures
        r == gives_up(text_option(*line)),
{
    match line {
        None => true,
        Some(line) => same(&trimmed_lower(line), "q"),
    }
}

/// How asking for a permission goes on.
#[derive(Debug, Clone, Copy, PartialEq, Eq, Structural)]
pub enum PermissionStep {
    /// The permission is there.
    Granted,
    /// The user gave up.
    Refused,
    /// The user is asked again.
    AskAgain,
}

/// How asking for a permission goes on after the user answered, where `granted` says whether
/// the permission is there now.
pub fn permission_step(line: &Option<String>, granted: bool) -> (r: PermissionStep)
    ensures
        r == if gives_up(text_option(*line)) {
            PermissionStep::Refused
        } else if granted {
            PermissionStep::Granted
        } else {
            PermissionStep::AskAgain
        },
{
    if user_gives_up(line) {
        PermissionStep::Refused
    } else if granted {
        PermissionStep::Granted
    } else {
        PermissionStep::AskAgain
    }
}

} // verus!
