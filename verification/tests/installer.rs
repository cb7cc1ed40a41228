use lighty_launcher::installer::{hash_cut_chars, asset_download_targets, client_download_target, pending_downloads, AssetObject};
use std::io::Write;
use lighty_launcher::installer::{
    asset_object_path, client_jar_path, download_targets, file_retry_after_failure, get_config,
    init_downloader_config, native_extractions,
    is_native_file, native_destination, processors_marker_path, processors_up_to_date,
    retry_delay_ms, DownloaderConfig, MAX_CONCURRENT_DOWNLOADS,
};
use lighty_launcher::system::OperatingSystem;
use lighty_launcher::version::{InstanceInfo, Library};

fn instance() -> InstanceInfo {
    InstanceInfo {
        name: "my-instance".to_string(),
        game_dir: "/games/my".to_string(),
        minecraft_version: "1.21.1".to_string(),
        loader_version: "47.2.0".to_string(),
    }
}

fn lib(name: &str, url: Option<&str>, path: Option<&str>, sha1: Option<&str>) -> Library {
    Library {
        name: name.to_string(),
        url: url.map(|s| s.to_string()),
        path: path.map(|s| s.to_string()),
        sha1: sha1.map(|s| s.to_string()),
    }
}

#[test]
fn default_downloader_settings() {
    let c = DownloaderConfig::default();
    assert_eq!(c.max_concurrent_downloads, 50);
    assert_eq!(c.max_retries, 3);
    assert_eq!(c.initial_delay_ms, 20);
    assert_eq!(MAX_CONCURRENT_DOWNLOADS, 50);
}

#[test]
fn settings_are_set_once() {
    let custom = DownloaderConfig { max_concurrent_downloads: 100, max_retries: 5, initial_delay_ms: 50 };
    let other = DownloaderConfig { max_concurrent_downloads: 1, max_retries: 1, initial_delay_ms: 1 };
    let mut slot = None;
    init_downloader_config(&mut slot, custom);
    init_downloader_config(&mut slot, other);
    assert_eq!(get_config(&mut slot), custom);

    let mut fresh = None;
    assert_eq!(get_config(&mut fresh), DownloaderConfig::default());
    init_downloader_config(&mut fresh, custom);
    assert_eq!(get_config(&mut fresh), DownloaderConfig::default());
}

#[test]
fn retry_delays_double() {
    assert_eq!(retry_delay_ms(20, 1), 20);
    assert_eq!(retry_delay_ms(20, 2), 40);
    assert_eq!(retry_delay_ms(20, 3), 80);
    assert_eq!(retry_delay_ms(0, 10), 0);
}

#[test]
fn native_library_names() {
    assert!(is_native_file("lwjgl.dll"));
    assert!(is_native_file("liblwjgl.so"));
    assert!(is_native_file("libGLFW.DYLIB"));
    assert!(is_native_file("libjinput-osx.jnilib"));
    assert!(is_native_file("libopenal.so.1"));
    assert!(!is_native_file("META-INF/MANIFEST.MF"));
    assert!(!is_native_file("org/lwjgl/Library.class"));
    assert!(!is_native_file(""));
}

#[test]
fn native_destinations() {
    assert_eq!(
        native_destination(OperatingSystem::LINUX, "/g/natives", "linux/x64/org/lwjgl/liblwjgl.so"),
        Some("/g/natives/liblwjgl.so".to_string())
    );
    assert_eq!(native_destination(OperatingSystem::LINUX, "/g/natives", "META-INF/x.class"), None);
}

#[test]
fn targets_keep_items_with_url_and_path() {
    let items = vec![
        lib("a", Some("https://x/a.jar"), Some("a/a.jar"), Some("aa")),
        lib("b", None, Some("b/b.jar"), None),
        lib("c", Some("https://x/c.jar"), None, None),
        lib("d", Some("https://x/d.jar"), Some("d/d.jar"), None),
    ];
    let t = download_targets(OperatingSystem::LINUX, "/g/libraries", &items);
    assert_eq!(t.len(), 2);
    assert_eq!(t[0].url, "https://x/a.jar");
    assert_eq!(t[0].path, "/g/libraries/a/a.jar");
    assert_eq!(t[0].sha1, Some("aa".to_string()));
    assert_eq!(t[0].name, "a");
    assert_eq!(t[1].path, "/g/libraries/d/d.jar");
    assert_eq!(t[1].sha1, None);
}

#[test]
fn instance_paths() {
    let i = instance();
    assert_eq!(client_jar_path(OperatingSystem::LINUX, &i), "/games/my/my-instance.jar");
    assert_eq!(
        asset_object_path(OperatingSystem::LINUX, "/games/my", "abcdef0123"),
        "/games/my/assets/objects/ab/abcdef0123"
    );
    assert_eq!(
        processors_marker_path(OperatingSystem::LINUX, &i, ".forge"),
        "/games/my/.forge/processors-1.21.1-47.2.0.sha1"
    );
}

#[test]
fn processors_marker() {
    assert!(processors_up_to_date(Some("abc\n"), Some("abc")));
    assert!(!processors_up_to_date(Some("abd"), Some("abc")));
    assert!(!processors_up_to_date(None, Some("abc")));
    assert!(!processors_up_to_date(Some("abc"), None));
}

#[test]
fn file_download_retries() {
    assert_eq!(file_retry_after_failure(1), Some(20));
    assert_eq!(file_retry_after_failure(2), Some(40));
    assert_eq!(file_retry_after_failure(3), None);
}

fn jar(entries: &[(&str, &[u8])]) -> Vec<u8> {
    let mut w = zip::ZipWriter::new(std::io::Cursor::new(Vec::new()));
    for (name, data) in entries {
        w.start_file(*name, zip::write::SimpleFileOptions::default()).unwrap();
        w.write_all(data).unwrap();
    }
    w.finish().unwrap().into_inner()
}

#[test]
fn natives_are_taken_from_jars() {
    let data = jar(&[
        ("META-INF/MANIFEST.MF", b"Manifest-Version: 1.0\n"),
        ("linux/x64/org/lwjgl/liblwjgl.so", b"ELF..."),
        ("org/lwjgl/Version.class", b"\xca\xfe"),
        ("windows/lwjgl.DLL", b"MZ"),
    ]);
    let files = native_extractions(OperatingSystem::LINUX, "/g/natives", &data).unwrap();
    assert_eq!(
        files,
        vec![
            ("/g/natives/liblwjgl.so".to_string(), b"ELF...".to_vec()),
            ("/g/natives/lwjgl.DLL".to_string(), b"MZ".to_vec()),
        ]
    );
    assert!(native_extractions(OperatingSystem::LINUX, "/g/natives", b"not a zip").is_err());
}

#[test]
fn installer_tasks() {
    let assets = vec![
        AssetObject { hash: "ab12cd".to_string(), url: Some("https://r/ab/ab12cd".to_string()) },
        AssetObject { hash: "x".to_string(), url: None },
    ];
    let t = asset_download_targets(OperatingSystem::LINUX, "/g", &assets);
    assert_eq!(t.len(), 1);
    assert_eq!(t[0].path, "/g/assets/objects/ab/ab12cd");
    assert_eq!(t[0].sha1, Some("ab12cd".to_string()));
    assert_eq!(t[0].name, "ab12cd");

    let i = instance();
    assert!(client_download_target(OperatingSystem::LINUX, &i, None, None).is_none());
    let c = client_download_target(OperatingSystem::LINUX, &i, Some("https://c".to_string()), Some("ff".to_string())).unwrap();
    assert_eq!(c.path, "/games/my/my-instance.jar");
    assert_eq!(c.name, "Client JAR");

    let items = vec![
        lib("a", Some("https://x/a.jar"), Some("a.jar"), None),
        lib("b", Some("https://x/b.jar"), Some("b.jar"), None),
    ];
    let targets = download_targets(OperatingSystem::LINUX, "/l", &items);
    assert_eq!(
        pending_downloads(&targets, &[false, true]),
        vec![("https://x/b.jar".to_string(), "/l/b.jar".to_string())]
    );
    assert!(pending_downloads(&targets, &[false, false]).is_empty());
}

#[test]
fn asset_hash_cut_after_two_bytes() {
    assert_eq!(hash_cut_chars("ab12"), Some(2));
    assert_eq!(hash_cut_chars("\u{e9}1"), Some(1));
    assert_eq!(hash_cut_chars("a\u{e9}"), None);
    assert_eq!(hash_cut_chars("a"), None);
    assert_eq!(hash_cut_chars("\u{20ac}x"), None);
    assert_eq!(
        asset_object_path(OperatingSystem::LINUX, "/g", "\u{e9}12"),
        "/g/assets/objects/\u{e9}/\u{e9}12"
    );
}
