//! The parts of a resolved game version that the launch logic reads.

use vstd::prelude::*;

verus! {

/// A library of a version manifest.
pub struct Library {
    /// Maven coordinates or display name
    pub name: String,
    /// Download URL
    pub url: Option<String>,
    /// Path under the libraries directory
    pub path: Option<String>,
    /// Expected SHA1 of the file
    pub sha1: Option<String>,
}

/// The game and JVM arguments of a version manifest.
pub struct VersionArguments {
    /// Game arguments, with `${...}` placeholders
    pub game: Vec<String>,
    /// JVM arguments, absent for legacy versions
    pub jvm: Option<Vec<String>>,
}

/// A resolved version: what the launcher runs.
pub struct Version {
    /// Fully qualified main class
    pub main_class: String,
    /// Launch arguments
    pub arguments: VersionArguments,
    /// Id of the asset index, when the version has one
    pub assets_index_id: Option<String>,
    /// Libraries on the classpath
    pub libraries: Vec<Library>,
    /// Major Java version the game needs
    pub java_major_version: u8,
}

/// The instance being launched.
pub struct InstanceInfo {
    /// Instance name; also the client JAR's base name
    pub name: String,
    /// Root directory of the instance
    pub game_dir: String,
    /// Minecraft version, such as `1.21.1`
    pub minecraft_version: String,
    /// Mod-loader version, empty for vanilla
    pub loader_version: String,
}

} // verus!
