//! Launch settings shared by every launch.

use vstd::prelude::*;
use vstd::string::StringExecFns;
use crate::java::JavaDistribution;

verus! {

/// Username, UUID and Java distribution used for launches.
#[derive(Debug)]
pub struct LaunchConfig {
    /// Username for authentication
    pub username: String,
    /// Player UUID, with dashes
    pub uuid: String,
    /// Java distribution to use
    pub java_distribution: JavaDistribution,
}

impl LaunchConfig {
    /// Creates a launch configuration.
    pub fn new(username: String, uuid: String, java_distribution: JavaDistribution) -> (r: Self)
        ensures
            r.username == username,
            r.uuid == uuid,
            r.java_distribution == java_distribution,
    {
        LaunchConfig { username, uuid, java_distribution }
    }
}

impl Default for LaunchConfig {
    fn default() -> (r: Self)
        ensures
            r.username@ == "Hamadi"@,
            r.uuid@ == "00000000-0000-0000-0000-000000000000"@,
            r.java_distribution == JavaDistribution::Temurin,
    {
        LaunchConfig {
            username: String::from_str("Hamadi"),
            uuid: String::from_str("00000000-0000-0000-0000-000000000000"),
            java_distribution: JavaDistribution::Temurin,
        }
    }
}

} // verus!
