use lighty_launcher::runner::{
    advance_launch, java_download_completed_event, java_download_progress_event,
    java_download_started_event, java_extraction_completed_event, java_extraction_started_event,
    next_java_install_stage, JavaInstallStage,
};
use lighty_launcher::events::{Event, JavaEvent, LoaderEvent};
use lighty_launcher::java::JavaDistribution;
use lighty_launcher::launch::LaunchConfig;
use lighty_launcher::runner::{
    asset_index_failure, asset_index_path, asset_index_step, game_directory_override,
    instance_launched_event, instance_version_label, java_already_installed_event,
    java_install_action, java_not_found_event, java_version_output_valid, launch_directory,
    launched_instance, loader_name, merge_user_mods, metadata_fetch_events, next_launch_stage, post_install_action, window_watch_step,
    AssetIndexStep, ForgeProfile, JavaInstallAction, LaunchStage, Loader, PostInstallAction,
    WindowWatchStep, JAVA_VALIDATION_TIMEOUT_MS,
};
use lighty_launcher::system::OperatingSystem;

fn stages(loader: Loader) -> Vec<LaunchStage> {
    let mut s = LaunchStage::FetchMetadata;
    let mut out = vec![s];
    while s != LaunchStage::Done {
        s = next_launch_stage(s, loader);
        out.push(s);
    }
    out
}

#[test]
fn launch_stage_order() {
    let vanilla = stages(Loader::Vanilla);
    assert_eq!(vanilla.len(), 9);
    assert!(!vanilla.contains(&LaunchStage::PostInstall));
    assert_eq!(vanilla[7], LaunchStage::ExecuteGame);
    let forge = stages(Loader::Forge);
    assert_eq!(forge.len(), 10);
    assert_eq!(forge[7], LaunchStage::PostInstall);
    assert!(stages(Loader::NeoForge).contains(&LaunchStage::PostInstall));
    assert!(!stages(Loader::Fabric).contains(&LaunchStage::PostInstall));
}

#[test]
fn post_install_work() {
    assert_eq!(post_install_action(Loader::NeoForge, None), Some(PostInstallAction::NeoForgeProcessors));
    assert_eq!(post_install_action(Loader::Forge, Some(ForgeProfile::Modern)), Some(PostInstallAction::ForgeProcessors));
    assert_eq!(post_install_action(Loader::Forge, Some(ForgeProfile::Legacy)), Some(PostInstallAction::ForgeUniversalJar));
    assert_eq!(post_install_action(Loader::Quilt, None), None);
}

#[test]
fn java_decisions() {
    assert_eq!(java_install_action(true, true), JavaInstallAction::UseExisting);
    assert_eq!(java_install_action(true, false), JavaInstallAction::RemoveAndDownload);
    assert_eq!(java_install_action(false, false), JavaInstallAction::Download);
    assert_eq!(JAVA_VALIDATION_TIMEOUT_MS, 3000);
    assert!(java_version_output_valid(true, true, b"", b"openjdk version \"21\""));
    assert!(!java_version_output_valid(true, true, b"", b""));
    assert!(!java_version_output_valid(true, false, b"x", b""));
    assert!(!java_version_output_valid(false, true, b"x", b""));
}

#[test]
fn java_events() {
    match java_already_installed_event(JavaDistribution::Zulu, 8, "/j/bin/java".to_string()) {
        Event::Java(JavaEvent::JavaAlreadyInstalled { distribution, version, binary_path }) => {
            assert_eq!(distribution, "zulu");
            assert_eq!(version, 8);
            assert_eq!(binary_path, "/j/bin/java");
        }
        other => panic!("unexpected {:?}", other),
    }
    match java_not_found_event(JavaDistribution::Temurin, 21) {
        Event::Java(JavaEvent::JavaNotFound { distribution, version }) => {
            assert_eq!(distribution, "temurin");
            assert_eq!(version, 21);
        }
        other => panic!("unexpected {:?}", other),
    }
}

#[test]
fn game_directories() {
    assert_eq!(game_directory_override(OperatingSystem::LINUX, "/g", Some("runtime2")), Some("/g/runtime2".to_string()));
    assert_eq!(game_directory_override(OperatingSystem::LINUX, "/g", Some("/mnt/games")), Some("/mnt/games".to_string()));
    assert_eq!(game_directory_override(OperatingSystem::LINUX, "/g", None), None);
    assert_eq!(launch_directory(OperatingSystem::LINUX, "/g", None), "/g/runtime");
    assert_eq!(launch_directory(OperatingSystem::LINUX, "/g", Some("rel")), "rel");
}

#[test]
fn mod_merging() {
    assert_eq!(merge_user_mods(Some(vec![1, 2]), vec![]), Some(vec![1, 2]));
    assert_eq!(merge_user_mods::<i32>(None, vec![]), None);
    assert_eq!(merge_user_mods(Some(vec![1]), vec![2, 3]), Some(vec![1, 2, 3]));
    assert_eq!(merge_user_mods(None, vec![4]), Some(vec![4]));
}

#[test]
fn launched_instance_records() {
    assert_eq!(instance_version_label("1.21.1", "0.15.0"), "1.21.1-0.15.0");
    let i = launched_instance(42, "inst", "1.20.1", "fabric", "Steve", "/g", 100);
    assert_eq!(i.pid, 42);
    assert_eq!(i.version, "1.20.1-fabric");
    assert_eq!(i.username, "Steve");
    assert_eq!(i.game_dir, "/g");
    assert_eq!(i.started_at, 100);
    match instance_launched_event(42, "inst", "1.20.1", "fabric", "Steve", 7) {
        Event::InstanceLaunched(e) => {
            assert_eq!(e.pid, 42);
            assert_eq!(e.instance_name, "inst");
            assert_eq!(e.version, "1.20.1-fabric");
            assert_eq!(e.timestamp, 7);
        }
        other => panic!("unexpected {:?}", other),
    }
}

#[test]
fn asset_index() {
    assert_eq!(asset_index_path(OperatingSystem::LINUX, "/g", "17"), "/g/assets/indexes/17.json");
    assert_eq!(asset_index_step(false, true), AssetIndexStep::NextMirror);
    assert_eq!(asset_index_step(true, true), AssetIndexStep::Done);
    assert_eq!(asset_index_step(true, false), AssetIndexStep::RemoveAndNextMirror);
    assert_eq!(asset_index_failure("17"), "Failed to download or verify asset index 17");
}

#[test]
fn window_watch() {
    assert_eq!(window_watch_step(OperatingSystem::WINDOWS, 0, false), WindowWatchStep::Sleep { ms: 100 });
    assert_eq!(window_watch_step(OperatingSystem::WINDOWS, 10, true), WindowWatchStep::Report);
    assert_eq!(window_watch_step(OperatingSystem::WINDOWS, 300, true), WindowWatchStep::GiveUp);
    assert_eq!(window_watch_step(OperatingSystem::LINUX, 0, false), WindowWatchStep::Sleep { ms: 5000 });
    assert_eq!(window_watch_step(OperatingSystem::LINUX, 1, false), WindowWatchStep::Report);
    let mut checks = 0u32;
    loop {
        match window_watch_step(OperatingSystem::WINDOWS, checks, false) {
            WindowWatchStep::Sleep { .. } => checks += 1,
            WindowWatchStep::GiveUp => break,
            WindowWatchStep::Report => panic!("no window"),
        }
    }
    assert_eq!(checks, 300);
}

#[test]
fn launch_config_defaults() {
    let c = LaunchConfig::default();
    assert_eq!(c.username, "Hamadi");
    assert_eq!(c.uuid, "00000000-0000-0000-0000-000000000000");
    assert_eq!(c.java_distribution, JavaDistribution::Temurin);
    let n = LaunchConfig::new("Alex".to_string(), "u".to_string(), JavaDistribution::Zulu);
    assert_eq!(n.username, "Alex");
    assert_eq!(n.java_distribution, JavaDistribution::Zulu);
}

#[test]
fn loader_reports() {
    assert_eq!(loader_name(Loader::NeoForge), "NeoForge");
    assert_eq!(loader_name(Loader::LightyUpdater), "LightyUpdater");
    let (a, b) = metadata_fetch_events(Loader::Fabric, "1.21.1", "0.16.0");
    match a {
        Event::Loader(LoaderEvent::FetchingData { loader, minecraft_version, loader_version }) => {
            assert_eq!((loader.as_str(), minecraft_version.as_str(), loader_version.as_str()), ("Fabric", "1.21.1", "0.16.0"));
        }
        other => panic!("unexpected {:?}", other),
    }
    assert!(matches!(b, Event::Loader(LoaderEvent::DataFetched { .. })));
}

#[test]
fn java_download_events() {
    match java_download_started_event(JavaDistribution::Zulu, 17, 1000) {
        Event::Java(JavaEvent::JavaDownloadStarted { distribution, version, total_bytes }) => {
            assert_eq!((distribution.as_str(), version, total_bytes), ("zulu", 17, 1000));
        }
        other => panic!("unexpected {:?}", other),
    }
    assert!(java_download_progress_event(0, 100, 100).is_none());
    let bytes = |e: Option<Event>| match e {
        Some(Event::Java(JavaEvent::JavaDownloadProgress { bytes })) => bytes,
        other => panic!("unexpected {:?}", other),
    };
    assert_eq!(bytes(java_download_progress_event(50, 100, 0)), 50);
    assert_eq!(bytes(java_download_progress_event(150, 100, 0)), 100);
    assert_eq!(bytes(java_download_progress_event(150, 0, 120)), 120);
    assert_eq!(bytes(java_download_progress_event(150, 0, 0)), 150);
    assert!(matches!(
        java_download_completed_event(JavaDistribution::Temurin, 21),
        Event::Java(JavaEvent::JavaDownloadCompleted { version: 21, .. })
    ));
    assert!(matches!(
        java_extraction_started_event(JavaDistribution::Temurin, 21),
        Event::Java(JavaEvent::JavaExtractionStarted { version: 21, .. })
    ));
    match java_extraction_completed_event(JavaDistribution::Liberica, 8, "/j/bin/java".to_string()) {
        Event::Java(JavaEvent::JavaExtractionCompleted { distribution, binary_path, .. }) => {
            assert_eq!(distribution, "liberica");
            assert_eq!(binary_path, "/j/bin/java");
        }
        other => panic!("unexpected {:?}", other),
    }
}

#[test]
fn java_install_stage_order() {
    let run = |reporting: bool| {
        let mut s = JavaInstallStage::PrepareDirectory;
        let mut out = vec![s];
        while s != JavaInstallStage::Done {
            s = next_java_install_stage(s, reporting);
            out.push(s);
        }
        out
    };
    assert_eq!(
        run(true),
        vec![
            JavaInstallStage::PrepareDirectory,
            JavaInstallStage::AnnounceDownload,
            JavaInstallStage::Download,
            JavaInstallStage::AnnounceDownloaded,
            JavaInstallStage::AnnounceExtraction,
            JavaInstallStage::Extract,
            JavaInstallStage::AnnounceExtracted,
            JavaInstallStage::Done,
        ]
    );
    assert_eq!(
        run(false),
        vec![
            JavaInstallStage::PrepareDirectory,
            JavaInstallStage::Download,
            JavaInstallStage::Extract,
            JavaInstallStage::Done,
        ]
    );
}

#[test]
fn failed_stage_ends_launch() {
    assert_eq!(advance_launch(LaunchStage::FetchMetadata, Loader::Vanilla, false), None);
    assert_eq!(advance_launch(LaunchStage::Install, Loader::Vanilla, false), None);
    assert_eq!(advance_launch(LaunchStage::Install, Loader::Vanilla, true), Some(LaunchStage::ExecuteGame));
    assert_eq!(advance_launch(LaunchStage::Install, Loader::Forge, true), Some(LaunchStage::PostInstall));
    assert_eq!(advance_launch(LaunchStage::ExecuteGame, Loader::Forge, true), None);
}
