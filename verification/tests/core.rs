use lighty_launcher::app_state::{
    client_id_path, format_uuid_v4, generate_uuid_v4, stored_client_id, AppState, AppStateError,
};
use lighty_launcher::download::{
    after_failure, expected_total_bytes, progress_report, start_download, DownloadAttempts,
    DownloadStep, HttpClientKind,
};
use lighty_launcher::hash::{
    calculate_sha1_bytes, calculate_sha1_bytes_raw, needs_download, verify_file_sha1_sync,
};
use lighty_launcher::hosts::{check_hosts_content, find_flagged_entries, hosts_path, HostsError};
use lighty_launcher::system::{
    classpath_separator, file_name_exec, get_path_separator, join_path_exec, main_separator,
    OperatingSystem,
};

fn chars(s: &str) -> Vec<char> {
    s.chars().collect()
}

fn text(v: &[char]) -> String {
    v.iter().collect()
}

#[test]
fn sha1_of_known_inputs() {
    assert_eq!(calculate_sha1_bytes(b""), "da39a3ee5e6b4b0d3255bfef95601890afd80709");
    assert_eq!(calculate_sha1_bytes(b"abc"), "a9993e364706816aba3e25717850c26c9cd0d89d");
    let raw = calculate_sha1_bytes_raw(b"abc");
    assert_eq!(raw[0], 0xa9);
    assert_eq!(raw[19], 0x9d);
}

#[test]
fn sha1_verification_ignores_case() {
    assert!(verify_file_sha1_sync(b"abc", "a9993e364706816aba3e25717850c26c9cd0d89d"));
    assert!(verify_file_sha1_sync(b"abc", "A9993E364706816ABA3E25717850C26C9CD0D89D"));
    assert!(!verify_file_sha1_sync(b"abd", "a9993e364706816aba3e25717850c26c9cd0d89d"));
    assert!(!verify_file_sha1_sync(b"abc", "a9993e"));
}

#[test]
fn computed_hash_always_verifies() {
    for data in [&b""[..], b"x", b"hello world"] {
        let h = calculate_sha1_bytes(data);
        assert_eq!(h.len(), 40);
        assert!(verify_file_sha1_sync(data, &h));
    }
}

#[test]
fn download_needed_cases() {
    assert!(needs_download(None, None));
    assert!(needs_download(None, Some("a9993e364706816aba3e25717850c26c9cd0d89d")));
    assert!(!needs_download(Some(b"abc"), None));
    assert!(!needs_download(Some(b"abc"), Some("a9993e364706816aba3e25717850c26c9cd0d89d")));
    assert!(needs_download(Some(b"abd"), Some("a9993e364706816aba3e25717850c26c9cd0d89d")));
}

#[test]
fn hosts_without_guarded_domains_pass() {
    let content = "127.0.0.1 localhost\n# 0.0.0.0 mojang.com\n::1 ip6-localhost\n";
    assert!(check_hosts_content(content).is_ok());
    assert!(find_flagged_entries(content).is_empty());
    assert!(check_hosts_content("").is_ok());
}

#[test]
fn hosts_with_guarded_domains_are_refused() {
    let content = "0.0.0.0 sessionserver.mojang.com api.minecraft.net other.org\n  # 1.1.1.1 minecraft.net\n1.2.3.4\tlightylauncher.fr\n";
    assert_eq!(
        find_flagged_entries(content),
        vec![
            "sessionserver.mojang.com".to_string(),
            "api.minecraft.net".to_string(),
            "lightylauncher.fr".to_string(),
        ]
    );
    match check_hosts_content(content) {
        Err(HostsError::HostsBlocked(msg)) => {
            assert_eq!(msg, "sessionserver.mojang.com\napi.minecraft.net\nlightylauncher.fr")
        }
        other => panic!("unexpected {:?}", other),
    }
}

#[test]
fn the_address_column_is_not_a_domain() {
    assert!(check_hosts_content("mojang.com\n").is_ok());
}

#[test]
fn hosts_file_location() {
    assert_eq!(hosts_path(OperatingSystem::LINUX, None), "/etc/hosts");
    assert_eq!(hosts_path(OperatingSystem::OSX, Some("D:".to_string())), "/etc/hosts");
    assert_eq!(
        hosts_path(OperatingSystem::WINDOWS, None),
        "C:\\System32\\drivers\\etc\\hosts"
    );
    assert_eq!(
        hosts_path(OperatingSystem::WINDOWS, Some("D:".to_string())),
        "D:\\System32\\drivers\\etc\\hosts"
    );
}

#[test]
fn separators() {
    assert_eq!(get_path_separator(OperatingSystem::WINDOWS), ";");
    assert_eq!(get_path_separator(OperatingSystem::LINUX), ":");
    assert_eq!(get_path_separator(OperatingSystem::OSX), ":");
    assert_eq!(classpath_separator(OperatingSystem::WINDOWS), ';');
    assert_eq!(main_separator(OperatingSystem::WINDOWS), '\\');
    assert_eq!(main_separator(OperatingSystem::LINUX), '/');
}

#[test]
fn path_joining() {
    let j = |os, a: &str, b: &str| text(&join_path_exec(os, &chars(a), &chars(b)));
    assert_eq!(j(OperatingSystem::LINUX, "/games", "runtime"), "/games/runtime");
    assert_eq!(j(OperatingSystem::LINUX, "/games/", "runtime"), "/games/runtime");
    assert_eq!(j(OperatingSystem::LINUX, "/games", "/mnt/x"), "/mnt/x");
    assert_eq!(j(OperatingSystem::WINDOWS, "C:\\games", "runtime"), "C:\\games\\runtime");
    assert_eq!(j(OperatingSystem::WINDOWS, "C:\\games", "D:\\x"), "D:\\x");
}

#[test]
fn file_names() {
    let f = |os, p: &str| file_name_exec(os, &chars(p)).map(|v| text(&v));
    assert_eq!(f(OperatingSystem::LINUX, "a/b/libfoo.so"), Some("libfoo.so".to_string()));
    assert_eq!(f(OperatingSystem::LINUX, "libfoo.so"), Some("libfoo.so".to_string()));
    assert_eq!(f(OperatingSystem::LINUX, "a/b/"), Some("b".to_string()));
    assert_eq!(f(OperatingSystem::LINUX, "a/.."), None);
    assert_eq!(f(OperatingSystem::LINUX, "/"), None);
    assert_eq!(f(OperatingSystem::WINDOWS, "a\\b\\x.dll"), Some("x.dll".to_string()));
}

#[test]
fn app_state_lifecycle() {
    let mut state = AppState::new();
    let r = state.init(
        OperatingSystem::LINUX,
        "MyLauncher".to_string(),
        Some("/home/u/.local/share".to_string()),
        Some("/home/u/.config".to_string()),
        Some("/home/u/.cache".to_string()),
    );
    assert!(r.is_ok());
    assert_eq!(state.name(), "MyLauncher");
    assert_eq!(state.data_dir(), "/home/u/.local/share/MyLauncher");
    assert_eq!(state.config_dir(), "/home/u/.config/MyLauncher");
    assert_eq!(state.cache_dir(), "/home/u/.cache/MyLauncher");
    assert_eq!(state.paths().name, "MyLauncher");
    let again = state.init(
        OperatingSystem::LINUX,
        "Other".to_string(),
        Some("/a".to_string()),
        Some("/b".to_string()),
        Some("/c".to_string()),
    );
    assert_eq!(again, Err(AppStateError::AlreadyInitialized));
    assert_eq!(state.name(), "MyLauncher");
}

#[test]
fn app_state_missing_bases() {
    let mut state = AppState::new();
    let r = state.init(OperatingSystem::LINUX, "L".to_string(), None, None, None);
    assert_eq!(r, Err(AppStateError::MissingPlatformDir("data".to_string())));
    let r = state.init(OperatingSystem::LINUX, "L".to_string(), Some("/d".to_string()), None, None);
    assert_eq!(r, Err(AppStateError::MissingPlatformDir("config".to_string())));
    let r = state.init(
        OperatingSystem::LINUX,
        "L".to_string(),
        Some("/d".to_string()),
        Some("/c".to_string()),
        None,
    );
    assert_eq!(r, Err(AppStateError::MissingPlatformDir("cache".to_string())));
    assert_eq!(AppState::app_version(), "26.5.1");
}

#[test]
fn client_id_storage() {
    assert_eq!(stored_client_id("  abc-123 \n"), Some("abc-123".to_string()));
    assert_eq!(stored_client_id(" \n\t"), None);
    assert_eq!(stored_client_id(""), None);
    assert_eq!(client_id_path(OperatingSystem::LINUX, "/cfg/L"), "/cfg/L/client_id");
    assert_eq!(client_id_path(OperatingSystem::WINDOWS, "C:\\cfg"), "C:\\cfg\\client_id");
}

#[test]
fn uuid_formatting() {
    let bytes = [
        0x00, 0x11, 0x22, 0x33, 0x44, 0x55, 0x66, 0x77, 0x88, 0x99, 0xaa, 0xbb, 0xcc, 0xdd, 0xee,
        0xff,
    ];
    assert_eq!(format_uuid_v4(bytes), "00112233-4455-4677-8899-aabbccddeeff");
    assert_eq!(format_uuid_v4([0xff; 16]), "ffffffff-ffff-4fff-bfff-ffffffffffff");
    assert_eq!(format_uuid_v4([0; 16]), "00000000-0000-4000-8000-000000000000");
}

#[test]
fn generated_uuids_have_the_v4_layout() {
    let a = generate_uuid_v4();
    let b = generate_uuid_v4();
    for u in [&a, &b] {
        let c: Vec<char> = u.chars().collect();
        assert_eq!(c.len(), 36);
        for i in [8, 13, 18, 23] {
            assert_eq!(c[i], '-');
        }
        assert_eq!(c[14], '4');
        assert!(matches!(c[19], '8' | '9' | 'a' | 'b'));
        assert!(c.iter().all(|x| *x == '-' || x.is_ascii_hexdigit() && !x.is_ascii_uppercase()));
    }
    assert_ne!(a, b);
}

#[test]
fn download_attempt_order() {
    let (s, step) = start_download(2);
    assert_eq!(step, DownloadStep::Try { candidate: 0, client: HttpClientKind::Standard });
    let (s, step) = after_failure(s, true);
    assert_eq!(step, DownloadStep::Try { candidate: 0, client: HttpClientKind::Raw });
    let (s, step) = after_failure(s, true);
    assert_eq!(step, DownloadStep::Try { candidate: 1, client: HttpClientKind::Standard });
    let (s, step) = after_failure(s, false);
    assert_eq!(step, DownloadStep::Try { candidate: 0, client: HttpClientKind::Proxy });
    let (s, step) = after_failure(s, true);
    assert_eq!(step, DownloadStep::Try { candidate: 0, client: HttpClientKind::Raw });
    let (s, step) = after_failure(s, false);
    assert_eq!(step, DownloadStep::Try { candidate: 1, client: HttpClientKind::Proxy });
    let (_, step) = after_failure(s, false);
    assert_eq!(step, DownloadStep::Exhausted);
    assert_eq!(start_download(0).1, DownloadStep::Exhausted);
}

#[test]
fn download_attempts_are_bounded() {
    for n in 1..5usize {
        let (mut s, mut step) = start_download(n);
        let mut tries = 0;
        while let DownloadStep::Try { .. } = step {
            tries += 1;
            let next = after_failure(s, true);
            s = next.0;
            step = next.1;
        }
        assert_eq!(tries, 4 * n);
    }
    let s = DownloadAttempts { candidates: 1, proxy_round: true, index: 0, raw_retry: true };
    assert_eq!(after_failure(s, true).1, DownloadStep::Exhausted);
}

#[test]
fn announced_size() {
    assert_eq!(expected_total_bytes(None, Some(100)), 100);
    assert_eq!(expected_total_bytes(Some("IDENTITY"), Some(100)), 100);
    assert_eq!(expected_total_bytes(Some("gzip"), Some(100)), 0);
    assert_eq!(expected_total_bytes(None, None), 0);
}

#[test]
fn progress_is_capped() {
    assert_eq!(progress_report(50, 100), 50);
    assert_eq!(progress_report(150, 100), 100);
    assert_eq!(progress_report(150, 0), 150);
}
