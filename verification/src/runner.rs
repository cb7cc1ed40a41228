//! The launch pipeline's decisions: the order of the launch stages, what to
//! do about an installed Java, where the game runs from, which loader needs
//! post-install work, and when the window watcher reports.
//!
//! The caller performs each stage (network, disk, processes) and hands the
//! outcome back; the functions here decide what comes next.

use vstd::prelude::*;
use crate::events::{Event, InstanceLaunchedEvent, JavaEvent, LoaderEvent};
use crate::instance::GameInstance;
use crate::download::{progress_report, progress_value};
use crate::java::{distribution_name, effective_progress_total, progress_total, push_str, JavaDistribution};
use crate::system::{join_path, join_path_exec, OperatingSystem};
use crate::text::{from_chars, to_chars};

verus! {

/// Mod loaders an instance can use.
#[derive(Debug, Clone, Copy, PartialEq, Eq, Structural)]
pub enum Loader {
    Vanilla,
    Fabric,
    Quilt,
    NeoForge,
    Forge,
    OptiFine,
    LightyUpdater,
}

/// The stages of a launch, in the order they run.
#[derive(Debug, Clone, Copy, PartialEq, Eq, Structural)]
pub enum LaunchStage {
    /// Fetch the loader's metadata and take its version document
    FetchMetadata,
    /// Make sure the Java runtime the version needs is installed
    EnsureJava,
    /// Apply a game-directory override to the instance
    ResolveGameDirectory,
    /// Resolve the user's mod requests and merge them into the version
    ResolveMods,
    /// Check the Java runtime again, for the merged version
    EnsureJavaForMods,
    /// Make sure the asset index is on disk
    EnsureAssetIndex,
    /// Install libraries, natives, client and assets
    Install,
    /// Run the Forge-family install profile (libraries and processors)
    PostInstall,
    /// Start the game
    ExecuteGame,
    /// Nothing left
    Done,
}

/// Whether the loader runs an install profile after the install.
pub open spec fn forge_family(loader: Loader) -> bool {
    loader == Loader::NeoForge || loader == Loader::Forge
}

/// The stage after `stage`: the fixed order, with the post-install stage
/// only for the Forge family.
pub open spec fn launch_stage_after(stage: LaunchStage, loader: Loader) -> LaunchStage {
    match stage {
        LaunchStage::FetchMetadata => LaunchStage::EnsureJava,
        LaunchStage::EnsureJava => LaunchStage::ResolveGameDirectory,
        LaunchStage::ResolveGameDirectory => LaunchStage::ResolveMods,
        LaunchStage::ResolveMods => LaunchStage::EnsureJavaForMods,
        LaunchStage::EnsureJavaForMods => LaunchStage::EnsureAssetIndex,
        LaunchStage::EnsureAssetIndex => LaunchStage::Install,
        LaunchStage::Install => if forge_family(loader) {
            LaunchStage::PostInstall
        } else {
            LaunchStage::ExecuteGame
        },
        LaunchStage::PostInstall => LaunchStage::ExecuteGame,
        LaunchStage::ExecuteGame => LaunchStage::Done,
        LaunchStage::Done => LaunchStage::Done,
    }
}

/// The position of a stage in the launch order.
pub open spec fn stage_rank(stage: LaunchStage) -> nat {
    match stage {
        LaunchStage::FetchMetadata => 0,
        LaunchStage::EnsureJava => 1,
        LaunchStage::ResolveGameDirectory => 2,
        LaunchStage::ResolveMods => 3,
        LaunchStage::EnsureJavaForMods => 4,
        LaunchStage::EnsureAssetIndex => 5,
        LaunchStage::Install => 6,
        LaunchStage::PostInstall => 7,
        LaunchStage::ExecuteGame => 8,
        LaunchStage::Done => 9,
    }
}

/// The stage that follows a completed stage; a failed stage ends the launch
/// with its error instead.
pub fn next_launch_stage(stage: LaunchStage, loader: Loader) -> (r: LaunchStage)
    ensures
        r == launch_stage_after(stage, loader),
        stage != LaunchStage::Done ==> stage_rank(r) > stage_rank(stage),
{
    match stage {
        LaunchStage::FetchMetadata => LaunchStage::EnsureJava,
        LaunchStage::EnsureJava => LaunchStage::ResolveGameDirectory,
        LaunchStage::ResolveGameDirectory => LaunchStage::ResolveMods,
        LaunchStage::ResolveMods => LaunchStage::EnsureJavaForMods,
        LaunchStage::EnsureJavaForMods => LaunchStage::EnsureAssetIndex,
        LaunchStage::EnsureAssetIndex => LaunchStage::Install,
        LaunchStage::Install => if loader == Loader::NeoForge || loader == Loader::Forge {
            LaunchStage::PostInstall
        } else {
            LaunchStage::ExecuteGame
        },
        LaunchStage::PostInstall => LaunchStage::ExecuteGame,
        LaunchStage::ExecuteGame => LaunchStage::Done,
        LaunchStage::Done => LaunchStage::Done,
    }
}

/// The stage to run after `stage` ended: the next one when it succeeded;
/// none when it failed (the launch ends with its error) or when nothing is
/// left.
pub open spec fn launch_stage_outcome(stage: LaunchStage, loader: Loader, succeeded: bool) -> Option<LaunchStage> {
    if !succeeded {
        None
    } else {
        match launch_stage_after(stage, loader) {
            LaunchStage::Done => None,
            next => Some(next),
        }
    }
}

/// Decides which stage runs after one ended.
pub fn advance_launch(stage: LaunchStage, loader: Loader, succeeded: bool) -> (r: Option<LaunchStage>)
    ensures
        r == launch_stage_outcome(stage, loader, succeeded),
        !succeeded ==> r is None,
        r matches Some(next) ==> stage_rank(next) > stage_rank(stage) && next != LaunchStage::Done,
{
    if !succeeded {
        return None;
    }
    match next_launch_stage(stage, loader) {
        LaunchStage::Done => None,
        next => Some(next),
    }
}

/// A failed stage ends the launch: no stage follows it. The game is started
/// only right after the installation or its post-install work.
pub proof fn lemma_failure_stops_launch(stage: LaunchStage, loader: Loader)
    ensures
        launch_stage_outcome(stage, loader, false) is None,
        stage != LaunchStage::PostInstall && stage != LaunchStage::Install
            ==> launch_stage_outcome(stage, loader, true) != Some(LaunchStage::ExecuteGame),
{
}

/// The stage reached from `stage` after `n` completed stages.
pub open spec fn stage_after_steps(stage: LaunchStage, loader: Loader, n: nat) -> LaunchStage
    decreases n,
{
    if n == 0 {
        stage
    } else {
        stage_after_steps(launch_stage_after(stage, loader), loader, (n - 1) as nat)
    }
}

/// A launch in which every stage succeeds starts the game after eight
/// stages for a Forge-family loader and seven for the others, and the
/// post-install stage runs exactly for the Forge family.
pub proof fn lemma_launch_reaches_game(loader: Loader)
    ensures
        forge_family(loader) ==> stage_after_steps(LaunchStage::FetchMetadata, loader, 8)
            == LaunchStage::ExecuteGame,
        forge_family(loader) ==> stage_after_steps(LaunchStage::FetchMetadata, loader, 7)
            == LaunchStage::PostInstall,
        !forge_family(loader) ==> stage_after_steps(LaunchStage::FetchMetadata, loader, 7)
            == LaunchStage::ExecuteGame,
        launch_stage_after(LaunchStage::ExecuteGame, loader) == LaunchStage::Done,
{
    reveal_with_fuel(stage_after_steps, 9);
}

/// The kind of Forge install profile a Forge version ships.
#[derive(Debug, Clone, Copy, PartialEq, Eq, Structural)]
pub enum ForgeProfile {
    /// An install profile with processors
    Modern,
    /// A legacy installer that carries the universal JAR
    Legacy,
}

/// The post-install work of a Forge-family loader.
#[derive(Debug, Clone, Copy, PartialEq, Eq, Structural)]
pub enum PostInstallAction {
    /// Download the NeoForge install-profile libraries and run its processors
    NeoForgeProcessors,
    /// Download the Forge install-profile libraries and run its processors
    ForgeProcessors,
    /// Extract the universal JAR from a legacy Forge installer
    ForgeUniversalJar,
}

/// The post-install work for `loader`, given the kind of Forge profile
/// fetched for a Forge version.
pub open spec fn post_install_for(loader: Loader, forge_profile: Option<ForgeProfile>) -> Option<PostInstallAction> {
    if loader == Loader::NeoForge {
        Some(PostInstallAction::NeoForgeProcessors)
    } else if loader == Loader::Forge {
        match forge_profile {
            Some(ForgeProfile::Modern) => Some(PostInstallAction::ForgeProcessors),
            Some(ForgeProfile::Legacy) => Some(PostInstallAction::ForgeUniversalJar),
            None => None,
        }
    } else {
        None
    }
}

/// Decides the post-install work; for Forge the kind of its install profile
/// must have been fetched.
pub fn post_install_action(loader: Loader, forge_profile: Option<ForgeProfile>) -> (r: Option<PostInstallAction>)
    requires
        loader == Loader::Forge ==> forge_profile is Some,
    ensures
        r == post_install_for(loader, forge_profile),
        r is Some <==> forge_family(loader),
{
    match loader {
        Loader::NeoForge => Some(PostInstallAction::NeoForgeProcessors),
        Loader::Forge => match forge_profile {
            Some(ForgeProfile::Modern) => Some(PostInstallAction::ForgeProcessors),
            Some(ForgeProfile::Legacy) => Some(PostInstallAction::ForgeUniversalJar),
            None => None,
        },
        _ => None,
    }
}

/// What to do about the Java runtime a version needs.
#[derive(Debug, Clone, Copy, PartialEq, Eq, Structural)]
pub enum JavaInstallAction {
    /// A valid runtime is installed: use it
    UseExisting,
    /// The installed runtime failed validation: remove its directory, then download
    RemoveAndDownload,
    /// No runtime is installed: download one
    Download,
}

/// The Java decision from whether a binary was found and whether it ran.
pub open spec fn java_action_for(found: bool, valid: bool) -> JavaInstallAction {
    if found && valid {
        JavaInstallAction::UseExisting
    } else if found {
        JavaInstallAction::RemoveAndDownload
    } else {
        JavaInstallAction::Download
    }
}

/// Decides what to do about the Java runtime.
pub fn java_install_action(found: bool, valid: bool) -> (r: JavaInstallAction)
    ensures
        r == java_action_for(found, valid),
{
    if found && valid {
        JavaInstallAction::UseExisting
    } else if found {
        JavaInstallAction::RemoveAndDownload
    } else {
        JavaInstallAction::Download
    }
}

/// The event reported for a runtime that is already installed.
pub fn java_already_installed_event(distribution: JavaDistribution, version: u8, binary_path: String) -> (r: Event)
    ensures
        r matches Event::Java(JavaEvent::JavaAlreadyInstalled { distribution: d, version: v, binary_path: p })
            && d@ == distribution_name(distribution) && v == version && p == binary_path,
{
    let d = from_chars(to_chars(distribution.get_name()).as_slice());
    Event::Java(JavaEvent::JavaAlreadyInstalled { distribution: d, version, binary_path })
}

/// The event reported for a runtime that is not installed.
pub fn java_not_found_event(distribution: JavaDistribution, version: u8) -> (r: Event)
    ensures
        r matches Event::Java(JavaEvent::JavaNotFound { distribution: d, version: v })
            && d@ == distribution_name(distribution) && v == version,
{
    let d = from_chars(to_chars(distribution.get_name()).as_slice());
    Event::Java(JavaEvent::JavaNotFound { distribution: d, version })
}

/// The event reported when a runtime download begins, with the size the
/// primary URL announces.
pub fn java_download_started_event(distribution: JavaDistribution, version: u8, total_bytes: u64) -> (r: Event)
    ensures
        r matches Event::Java(JavaEvent::JavaDownloadStarted { distribution: d, version: v, total_bytes: t })
            && d@ == distribution_name(distribution) && v == version && t == total_bytes,
{
    let d = from_chars(to_chars(distribution.get_name()).as_slice());
    Event::Java(JavaEvent::JavaDownloadStarted { distribution: d, version, total_bytes })
}

/// The progress event after `current` bytes of a runtime download: none
/// before the first byte; otherwise the bytes received, capped at the
/// effective size (the response's size, else the one announced at the
/// start) when one is known.
pub fn java_download_progress_event(current: u64, total: u64, expected_total: u64) -> (r: Option<Event>)
    ensures
        current == 0 <==> r is None,
        r matches Some(e) ==> e == Event::Java(
            JavaEvent::JavaDownloadProgress {
                bytes: progress_value(current, progress_total(total, expected_total)),
            },
        ),
{
    if current == 0 {
        return None;
    }
    let effective = effective_progress_total(total, expected_total);
    Some(Event::Java(JavaEvent::JavaDownloadProgress { bytes: progress_report(current, effective) }))
}

/// The event reported when a runtime download has finished.
pub fn java_download_completed_event(distribution: JavaDistribution, version: u8) -> (r: Event)
    ensures
        r matches Event::Java(JavaEvent::JavaDownloadCompleted { distribution: d, version: v })
            && d@ == distribution_name(distribution) && v == version,
{
    let d = from_chars(to_chars(distribution.get_name()).as_slice());
    Event::Java(JavaEvent::JavaDownloadCompleted { distribution: d, version })
}

/// The event reported when a runtime archive starts being extracted.
pub fn java_extraction_started_event(distribution: JavaDistribution, version: u8) -> (r: Event)
    ensures
        r matches Event::Java(JavaEvent::JavaExtractionStarted { distribution: d, version: v })
            && d@ == distribution_name(distribution) && v == version,
{
    let d = from_chars(to_chars(distribution.get_name()).as_slice());
    Event::Java(JavaEvent::JavaExtractionStarted { distribution: d, version })
}

/// The event reported when a runtime is extracted and its binary found.
pub fn java_extraction_completed_event(distribution: JavaDistribution, version: u8, binary_path: String) -> (r: Event)
    ensures
        r matches Event::Java(
            JavaEvent::JavaExtractionCompleted { distribution: d, version: v, binary_path: p },
        ) && d@ == distribution_name(distribution) && v == version && p == binary_path,
{
    let d = from_chars(to_chars(distribution.get_name()).as_slice());
    Event::Java(JavaEvent::JavaExtractionCompleted { distribution: d, version, binary_path })
}

/// The stages of a runtime installation, in the order they run and report.
#[derive(Debug, Clone, Copy, PartialEq, Eq, Structural)]
pub enum JavaInstallStage {
    /// Empty the installation directory
    PrepareDirectory,
    /// Measure the primary URL and report the start of the download
    AnnounceDownload,
    /// Download the archive, reporting progress
    Download,
    /// Report the end of the download
    AnnounceDownloaded,
    /// Report the start of the extraction
    AnnounceExtraction,
    /// Unpack the archive and find the binary
    Extract,
    /// Report the end of the extraction
    AnnounceExtracted,
    /// Nothing left
    Done,
}

/// The stage after a completed one; the announcements are made only when
/// events are reported.
pub open spec fn java_install_stage_after(stage: JavaInstallStage, reporting: bool) -> JavaInstallStage {
    match stage {
        JavaInstallStage::PrepareDirectory => if reporting {
            JavaInstallStage::AnnounceDownload
        } else {
            JavaInstallStage::Download
        },
        JavaInstallStage::AnnounceDownload => JavaInstallStage::Download,
        JavaInstallStage::Download => if reporting {
            JavaInstallStage::AnnounceDownloaded
        } else {
            JavaInstallStage::Extract
        },
        JavaInstallStage::AnnounceDownloaded => JavaInstallStage::AnnounceExtraction,
        JavaInstallStage::AnnounceExtraction => JavaInstallStage::Extract,
        JavaInstallStage::Extract => if reporting {
            JavaInstallStage::AnnounceExtracted
        } else {
            JavaInstallStage::Done
        },
        JavaInstallStage::AnnounceExtracted => JavaInstallStage::Done,
        JavaInstallStage::Done => JavaInstallStage::Done,
    }
}

/// The position of a runtime installation stage.
pub open spec fn java_stage_rank(stage: JavaInstallStage) -> nat {
    match stage {
        JavaInstallStage::PrepareDirectory => 0,
        JavaInstallStage::AnnounceDownload => 1,
        JavaInstallStage::Download => 2,
        JavaInstallStage::AnnounceDownloaded => 3,
        JavaInstallStage::AnnounceExtraction => 4,
        JavaInstallStage::Extract => 5,
        JavaInstallStage::AnnounceExtracted => 6,
        JavaInstallStage::Done => 7,
    }
}

/// The runtime installation stage that follows a completed one; a failed
/// stage ends the installation with its error instead.
pub fn next_java_install_stage(stage: JavaInstallStage, reporting: bool) -> (r: JavaInstallStage)
    ensures
        r == java_install_stage_after(stage, reporting),
        stage != JavaInstallStage::Done ==> java_stage_rank(r) > java_stage_rank(stage),
{
    match stage {
        JavaInstallStage::PrepareDirectory => if reporting {
            JavaInstallStage::AnnounceDownload
        } else {
            JavaInstallStage::Download
        },
        JavaInstallStage::AnnounceDownload => JavaInstallStage::Download,
        JavaInstallStage::Download => if reporting {
            JavaInstallStage::AnnounceDownloaded
        } else {
            JavaInstallStage::Extract
        },
        JavaInstallStage::AnnounceDownloaded => JavaInstallStage::AnnounceExtraction,
        JavaInstallStage::AnnounceExtraction => JavaInstallStage::Extract,
        JavaInstallStage::Extract => if reporting {
            JavaInstallStage::AnnounceExtracted
        } else {
            JavaInstallStage::Done
        },
        JavaInstallStage::AnnounceExtracted => JavaInstallStage::Done,
        JavaInstallStage::Done => JavaInstallStage::Done,
    }
}

/// The runtime installation stage reached after `n` completed stages.
pub open spec fn java_stage_after_steps(stage: JavaInstallStage, reporting: bool, n: nat) -> JavaInstallStage
    decreases n,
{
    if n == 0 {
        stage
    } else {
        java_stage_after_steps(java_install_stage_after(stage, reporting), reporting, (n - 1) as nat)
    }
}

/// A reported runtime installation announces the download, downloads,
/// announces its end, announces the extraction, extracts and announces the
/// result, in that order; without reports it prepares, downloads and
/// extracts.
pub proof fn lemma_java_install_order(reporting: bool)
    ensures
        reporting ==> java_stage_after_steps(JavaInstallStage::PrepareDirectory, reporting, 1)
            == JavaInstallStage::AnnounceDownload,
        reporting ==> java_stage_after_steps(JavaInstallStage::PrepareDirectory, reporting, 2)
            == JavaInstallStage::Download,
        reporting ==> java_stage_after_steps(JavaInstallStage::PrepareDirectory, reporting, 3)
            == JavaInstallStage::AnnounceDownloaded,
        reporting ==> java_stage_after_steps(JavaInstallStage::PrepareDirectory, reporting, 4)
            == JavaInstallStage::AnnounceExtraction,
        reporting ==> java_stage_after_steps(JavaInstallStage::PrepareDirectory, reporting, 5)
            == JavaInstallStage::Extract,
        reporting ==> java_stage_after_steps(JavaInstallStage::PrepareDirectory, reporting, 6)
            == JavaInstallStage::AnnounceExtracted,
        reporting ==> java_stage_after_steps(JavaInstallStage::PrepareDirectory, reporting, 7)
            == JavaInstallStage::Done,
        !reporting ==> java_stage_after_steps(JavaInstallStage::PrepareDirectory, reporting, 3)
            == JavaInstallStage::Done,
        !reporting ==> java_stage_after_steps(JavaInstallStage::PrepareDirectory, reporting, 2)
            == JavaInstallStage::Extract,
{
    reveal_with_fuel(java_stage_after_steps, 8);
}

/// How long `java -version` may run when a runtime is validated, in
/// milliseconds.
pub const JAVA_VALIDATION_TIMEOUT_MS: u64 = 3000;

/// Whether `java -version` shows a working runtime: it finished in time,
/// exited successfully and printed something on either stream.
pub open spec fn java_output_ok(finished_in_time: bool, success: bool, stdout: Seq<u8>, stderr: Seq<u8>) -> bool {
    finished_in_time && success && (stdout.len() > 0 || stderr.len() > 0)
}

/// Judges the outcome of `java -version`.
pub fn java_version_output_valid(finished_in_time: bool, success: bool, stdout: &[u8], stderr: &[u8]) -> (r: bool)
    ensures
        r == java_output_ok(finished_in_time, success, stdout@, stderr@),
{
    finished_in_time && success && (stdout.len() > 0 || stderr.len() > 0)
}

/// The runtime directory an override of the game directory leads to: the
/// override joined onto the instance's game directories (an absolute
/// override replaces them); no change without an override.
pub open spec fn overridden_runtime_dir(os: OperatingSystem, game_dirs: Seq<char>, custom: Option<Seq<char>>) -> Option<Seq<char>> {
    match custom {
        Some(c) => Some(join_path(os, game_dirs, c)),
        None => None,
    }
}

/// Resolves a game-directory override before the install.
pub fn game_directory_override(os: OperatingSystem, game_dirs: &str, custom: Option<&str>) -> (r: Option<String>)
    ensures
        match r {
            Some(d) => overridden_runtime_dir(
                os,
                game_dirs@,
                match custom {
                    Some(c) => Some(c@),
                    None => None,
                },
            ) == Some(d@),
            None => custom is None,
        },
{
    match custom {
        Some(c) => {
            let b = to_chars(game_dirs);
            let cc = to_chars(c);
            Some(from_chars(join_path_exec(os, b.as_slice(), cc.as_slice()).as_slice()))
        },
        None => None,
    }
}

/// The directory the game process starts in: the game-directory override as
/// given, else `<game_dirs>/runtime`.
pub open spec fn launch_dir(os: OperatingSystem, game_dirs: Seq<char>, custom: Option<Seq<char>>) -> Seq<char> {
    match custom {
        Some(c) => c,
        None => join_path(os, game_dirs, "runtime"@),
    }
}

/// Computes the directory the game process starts in.
pub fn launch_directory(os: OperatingSystem, game_dirs: &str, custom: Option<&str>) -> (r: String)
    ensures
        r@ == launch_dir(
            os,
            game_dirs@,
            match custom {
                Some(c) => Some(c@),
                None => None,
            },
        ),
{
    match custom {
        Some(c) => from_chars(to_chars(c).as_slice()),
        None => {
            let b = to_chars(game_dirs);
            let rt = to_chars("runtime");
            from_chars(join_path_exec(os, b.as_slice(), rt.as_slice()).as_slice())
        },
    }
}

/// Adds the user's resolved mods to a version's mods: none resolved leaves
/// them as they are; otherwise they are appended, or become the list when
/// the version had none.
pub open spec fn merged_mods<T>(existing: Option<Seq<T>>, user_mods: Seq<T>) -> Option<Seq<T>> {
    if user_mods.len() == 0 {
        existing
    } else {
        match existing {
            Some(e) => Some(e + user_mods),
            None => Some(user_mods),
        }
    }
}

/// Merges the user's resolved mods into a version's mods.
pub fn merge_user_mods<T>(existing: Option<Vec<T>>, user_mods: Vec<T>) -> (r: Option<Vec<T>>)
    ensures
        merged_mods(
            match existing {
                Some(e) => Some(e@),
                None => None,
            },
            user_mods@,
        ) == match r {
            Some(v) => Some(v@),
            None => None,
        },
{
    if user_mods.len() == 0 {
        return existing;
    }
    match existing {
        Some(e) => {
            let mut e = e;
            let mut u = user_mods;
            e.append(&mut u);
            Some(e)
        },
        None => Some(user_mods),
    }
}

/// The version label of a running instance: `<minecraft>-<loader version>`.
pub open spec fn instance_version(minecraft_version: Seq<char>, loader_version: Seq<char>) -> Seq<char> {
    minecraft_version + "-"@ + loader_version
}

/// Builds the version label of a running instance.
pub fn instance_version_label(minecraft_version: &str, loader_version: &str) -> (r: String)
    ensures
        r@ == instance_version(minecraft_version@, loader_version@),
{
    let mut v: Vec<char> = Vec::new();
    push_str(&mut v, minecraft_version);
    push_str(&mut v, "-");
    push_str(&mut v, loader_version);
    from_chars(v.as_slice())
}

/// The record of a freshly started game process.
pub fn launched_instance(
    pid: u32,
    instance_name: &str,
    minecraft_version: &str,
    loader_version: &str,
    username: &str,
    game_dir: &str,
    started_at: u64,
) -> (r: GameInstance)
    ensures
        r.pid == pid,
        r.instance_name@ == instance_name@,
        r.version@ == instance_version(minecraft_version@, loader_version@),
        r.username@ == username@,
        r.game_dir@ == game_dir@,
        r.started_at == started_at,
{
    GameInstance {
        pid,
        instance_name: from_chars(to_chars(instance_name).as_slice()),
        version: instance_version_label(minecraft_version, loader_version),
        username: from_chars(to_chars(username).as_slice()),
        game_dir: from_chars(to_chars(game_dir).as_slice()),
        started_at,
    }
}

/// The event reported when a game process has started.
pub fn instance_launched_event(
    pid: u32,
    instance_name: &str,
    minecraft_version: &str,
    loader_version: &str,
    username: &str,
    timestamp: u64,
) -> (r: Event)
    ensures
        r matches Event::InstanceLaunched(e) && e.pid == pid && e.instance_name@ == instance_name@
            && e.version@ == instance_version(minecraft_version@, loader_version@) && e.username@
            == username@ && e.timestamp == timestamp,
{
    Event::InstanceLaunched(
        InstanceLaunchedEvent {
            pid,
            instance_name: from_chars(to_chars(instance_name).as_slice()),
            version: instance_version_label(minecraft_version, loader_version),
            username: from_chars(to_chars(username).as_slice()),
            timestamp,
        },
    )
}

/// Where the asset index `<id>` is kept:
/// `<game_dirs>/assets/indexes/<id>.json`.
pub open spec fn asset_index_file(os: OperatingSystem, game_dirs: Seq<char>, id: Seq<char>) -> Seq<char> {
    join_path(os, join_path(os, join_path(os, game_dirs, "assets"@), "indexes"@), id + ".json"@)
}

/// Computes where an asset index is kept.
pub fn asset_index_path(os: OperatingSystem, game_dirs: &str, id: &str) -> (r: String)
    ensures
        r@ == asset_index_file(os, game_dirs@, id@),
{
    let b = to_chars(game_dirs);
    let a = to_chars("assets");
    let i = to_chars("indexes");
    let mut f = to_chars(id);
    push_str(&mut f, ".json");
    let p1 = join_path_exec(os, b.as_slice(), a.as_slice());
    let p2 = join_path_exec(os, p1.as_slice(), i.as_slice());
    let p3 = join_path_exec(os, p2.as_slice(), f.as_slice());
    from_chars(p3.as_slice())
}

/// What follows one attempt to fetch the asset index from a mirror.
#[derive(Debug, Clone, Copy, PartialEq, Eq, Structural)]
pub enum AssetIndexStep {
    /// The mirror answered with an error status: try the next mirror
    NextMirror,
    /// The file was written and has the expected SHA1: done
    Done,
    /// The file was written but its SHA1 is wrong: delete it, try the next mirror
    RemoveAndNextMirror,
}

/// The step after a mirror's answer: its status, and whether the written
/// file verified (only looked at after a successful status).
pub open spec fn asset_index_step_for(status_success: bool, verified: bool) -> AssetIndexStep {
    if !status_success {
        AssetIndexStep::NextMirror
    } else if verified {
        AssetIndexStep::Done
    } else {
        AssetIndexStep::RemoveAndNextMirror
    }
}

/// Decides the step after a mirror's answer for the asset index.
pub fn asset_index_step(status_success: bool, verified: bool) -> (r: AssetIndexStep)
    ensures
        r == asset_index_step_for(status_success, verified),
{
    if !status_success {
        AssetIndexStep::NextMirror
    } else if verified {
        AssetIndexStep::Done
    } else {
        AssetIndexStep::RemoveAndNextMirror
    }
}

/// The error text when no mirror gave a valid asset index.
pub fn asset_index_failure(id: &str) -> (r: String)
    ensures
        r@ == "Failed to download or verify asset index "@ + id@,
{
    let mut v = to_chars("Failed to download or verify asset index ");
    push_str(&mut v, id);
    from_chars(v.as_slice())
}

/// How many times the window of a new game is looked for on Windows.
pub const WINDOW_CHECKS: u32 = 300;

/// Milliseconds between two looks for the window on Windows.
pub const WINDOW_CHECK_INTERVAL_MS: u64 = 100;

/// Milliseconds waited, elsewhere, before the window is taken to be shown.
pub const WINDOW_ASSUMED_DELAY_MS: u64 = 5000;

/// What the window watcher does next.
#[derive(Debug, Clone, Copy, PartialEq, Eq, Structural)]
pub enum WindowWatchStep {
    /// Report that the window appeared
    Report,
    /// Sleep this many milliseconds, then look again
    Sleep { ms: u64 },
    /// Stop watching without a report
    GiveUp,
}

/// The watcher's step after `checks` looks (or, outside Windows, waits)
/// made so far; `visible` is the answer of the current look. On Windows the
/// window is looked for up to 300 times, 100 ms apart; elsewhere the watcher
/// waits 5 s once and then reports.
pub open spec fn window_watch_step_for(os: OperatingSystem, checks: u32, visible: bool) -> WindowWatchStep {
    if os == OperatingSystem::WINDOWS {
        if checks >= WINDOW_CHECKS {
            WindowWatchStep::GiveUp
        } else if visible {
            WindowWatchStep::Report
        } else {
            WindowWatchStep::Sleep { ms: WINDOW_CHECK_INTERVAL_MS }
        }
    } else if checks == 0 {
        WindowWatchStep::Sleep { ms: WINDOW_ASSUMED_DELAY_MS }
    } else {
        WindowWatchStep::Report
    }
}

/// Decides the window watcher's next step.
pub fn window_watch_step(os: OperatingSystem, checks: u32, visible: bool) -> (r: WindowWatchStep)
    ensures
        r == window_watch_step_for(os, checks, visible),
{
    if os == OperatingSystem::WINDOWS {
        if checks >= WINDOW_CHECKS {
            WindowWatchStep::GiveUp
        } else if visible {
            WindowWatchStep::Report
        } else {
            WindowWatchStep::Sleep { ms: WINDOW_CHECK_INTERVAL_MS }
        }
    } else if checks == 0 {
        WindowWatchStep::Sleep { ms: WINDOW_ASSUMED_DELAY_MS }
    } else {
        WindowWatchStep::Report
    }
}

/// The window watcher always stops: it sleeps only while fewer than 300
/// looks were made on Windows, and only before the first wait elsewhere.
pub proof fn lemma_window_watch_ends(os: OperatingSystem, checks: u32, visible: bool)
    ensures
        window_watch_step_for(os, checks, visible) is Sleep ==> (if os == OperatingSystem::WINDOWS {
            checks < WINDOW_CHECKS
        } else {
            checks == 0
        }),
        checks >= WINDOW_CHECKS ==> !(window_watch_step_for(os, checks, visible) is Sleep),
{
}

/// The name of a loader in reports: its variant's name.
pub open spec fn loader_label(loader: Loader) -> Seq<char> {
    match loader {
        Loader::Vanilla => "Vanilla"@,
        Loader::Fabric => "Fabric"@,
        Loader::Quilt => "Quilt"@,
        Loader::NeoForge => "NeoForge"@,
        Loader::Forge => "Forge"@,
        Loader::OptiFine => "OptiFine"@,
        Loader::LightyUpdater => "LightyUpdater"@,
    }
}

/// Returns the name of a loader in reports.
pub fn loader_name(loader: Loader) -> (r: &'static str)
    ensures
        r@ == loader_label(loader),
{
    match loader {
        Loader::Vanilla => "Vanilla",
        Loader::Fabric => "Fabric",
        Loader::Quilt => "Quilt",
        Loader::NeoForge => "NeoForge",
        Loader::Forge => "Forge",
        Loader::OptiFine => "OptiFine",
        Loader::LightyUpdater => "LightyUpdater",
    }
}

/// The events around fetching a loader's metadata: the one reported before
/// the fetch and the one reported after it succeeded.
pub fn metadata_fetch_events(loader: Loader, minecraft_version: &str, loader_version: &str) -> (r: (Event, Event))
    ensures
        r.0 matches Event::Loader(LoaderEvent::FetchingData { loader: l, minecraft_version: m, loader_version: v })
            && l@ == loader_label(loader) && m@ == minecraft_version@ && v@ == loader_version@,
        r.1 matches Event::Loader(LoaderEvent::DataFetched { loader: l, minecraft_version: m, loader_version: v })
            && l@ == loader_label(loader) && m@ == minecraft_version@ && v@ == loader_version@,
{
    let own = |s: &str| -> (o: String)
        ensures
            o@ == s@,
    { from_chars(to_chars(s).as_slice()) };
    let name = loader_name(loader);
    (
        Event::Loader(
            LoaderEvent::FetchingData {
                loader: own(name),
                minecraft_version: own(minecraft_version),
                loader_version: own(loader_version),
            },
        ),
        Event::Loader(
            LoaderEvent::DataFetched {
                loader: own(name),
                minecraft_version: own(minecraft_version),
                loader_version: own(loader_version),
            },
        ),
    )
}

} // verus!
