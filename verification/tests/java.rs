use lighty_launcher::java::{
    build_graalvm_url, build_java_binary_path, build_liberica_api_url, build_runtime_path,
    build_zulu_api_url, download_candidate_distributions, effective_progress_total,
    executable_mode_update, find_nested_bundle, first_package_url, runtime_archive_kind,
    select_jre_root, should_retry_attempt, ArchiveKind, BundleEntry, DistributionError,
    DistributionSelection, JavaDistribution, JreDirEntry, JreError,
};
use lighty_launcher::system::{Architecture, OperatingSystem};

const ALL: [JavaDistribution; 4] = [
    JavaDistribution::Temurin,
    JavaDistribution::GraalVM,
    JavaDistribution::Zulu,
    JavaDistribution::Liberica,
];

#[test]
fn names_and_defaults() {
    assert_eq!(JavaDistribution::Temurin.get_name(), "temurin");
    assert_eq!(JavaDistribution::GraalVM.get_name(), "graalvm");
    assert_eq!(JavaDistribution::Zulu.get_name(), "zulu");
    assert_eq!(JavaDistribution::Liberica.get_name(), "liberica");
    assert_eq!(JavaDistribution::default(), JavaDistribution::Temurin);
    assert!(matches!(DistributionSelection::default(), DistributionSelection::Automatic(s) if s.is_empty()));
}

#[test]
fn version_support() {
    let (os, arch) = (OperatingSystem::OSX, Architecture::AARCH64);
    assert!(!JavaDistribution::Temurin.supports_version(8, os, arch));
    assert!(JavaDistribution::Temurin.supports_version(17, os, arch));
    assert!(JavaDistribution::Temurin.supports_version(8, OperatingSystem::LINUX, Architecture::X64));
    assert!(!JavaDistribution::GraalVM.supports_version(11, OperatingSystem::LINUX, Architecture::X64));
    assert!(JavaDistribution::GraalVM.supports_version(17, OperatingSystem::LINUX, Architecture::X64));
    assert!(JavaDistribution::Zulu.supports_version(8, os, arch));
    assert!(JavaDistribution::Liberica.supports_version(8, os, arch));
}

#[test]
fn fallbacks() {
    let (os, arch) = (OperatingSystem::OSX, Architecture::AARCH64);
    assert_eq!(JavaDistribution::Temurin.get_fallback(8, os, arch), Some(JavaDistribution::Zulu));
    assert_eq!(JavaDistribution::Temurin.get_fallback(21, os, arch), None);
    assert_eq!(
        JavaDistribution::GraalVM.get_fallback(8, OperatingSystem::LINUX, Architecture::X64),
        Some(JavaDistribution::Zulu)
    );
    assert_eq!(
        JavaDistribution::GraalVM.effective_distribution(8, OperatingSystem::LINUX, Architecture::X64),
        JavaDistribution::Zulu
    );
    assert_eq!(
        JavaDistribution::Liberica.effective_distribution(8, os, arch),
        JavaDistribution::Liberica
    );
}

#[test]
fn effective_distribution_always_supports_the_version() {
    for d in ALL {
        for v in [8u8, 11, 16, 17, 21, 25] {
            for (os, arch) in [
                (OperatingSystem::OSX, Architecture::AARCH64),
                (OperatingSystem::LINUX, Architecture::X64),
                (OperatingSystem::WINDOWS, Architecture::X86),
            ] {
                let e = d.effective_distribution(v, os, arch);
                assert!(e.supports_version(v, os, arch));
                assert_eq!(d.get_fallback(v, os, arch).is_none(), d.supports_version(v, os, arch));
            }
        }
    }
}

#[test]
fn runtime_paths() {
    assert_eq!(
        build_runtime_path(OperatingSystem::LINUX, "/data/java", JavaDistribution::Temurin, 21),
        "/data/java/temurin_21"
    );
    assert_eq!(
        build_runtime_path(OperatingSystem::WINDOWS, "C:\\java", JavaDistribution::Zulu, 8),
        "C:\\java\\zulu_8"
    );
}

#[test]
fn graalvm_urls() {
    assert_eq!(
        build_graalvm_url(21, "linux", "x64", "tar.gz").unwrap(),
        "https://download.oracle.com/graalvm/21/latest/graalvm-jdk-21_linux-x64_bin.tar.gz"
    );
    assert_eq!(
        build_graalvm_url(17, "windows", "x64", "zip").unwrap(),
        "https://download.oracle.com/graalvm/17/archive/graalvm-jdk-17.0.12_windows-x64_bin.zip"
    );
    match build_graalvm_url(11, "linux", "x64", "tar.gz") {
        Err(DistributionError::UnsupportedVersion { version, distribution }) => {
            assert_eq!(version, 11);
            assert_eq!(distribution, "GraalVM");
        }
        other => panic!("unexpected {:?}", other),
    }
}

#[test]
fn api_queries() {
    assert_eq!(
        build_zulu_api_url(8, "macos", "aarch64", "tar.gz"),
        "https://api.azul.com/metadata/v1/zulu/packages?os=macos&arch=aarch64&archive_type=tar.gz&java_package_type=jre&release_status=ga&java_version=8&latest=true"
    );
    assert_eq!(
        build_liberica_api_url(17, "linux", "amd64", "tar.gz"),
        "https://api.foojay.io/disco/v3.0/packages?distro=liberica&version=17&operating_system=linux&architecture=amd64&archive_type=tar.gz&package_type=jre&release_status=ga&latest=available"
    );
}

#[test]
fn first_package() {
    let urls = vec!["https://a/1.tar.gz".to_string(), "https://a/2.tar.gz".to_string()];
    assert_eq!(first_package_url("Zulu", urls).unwrap(), "https://a/1.tar.gz");
    match first_package_url("Liberica", vec![]) {
        Err(DistributionError::NoPackagesFound { distribution }) => assert_eq!(distribution, "Liberica"),
        other => panic!("unexpected {:?}", other),
    }
}

#[test]
fn download_candidates() {
    let (os, arch) = (OperatingSystem::LINUX, Architecture::X64);
    assert_eq!(
        download_candidate_distributions(JavaDistribution::Temurin, 21, os, arch),
        vec![JavaDistribution::Temurin, JavaDistribution::Zulu, JavaDistribution::Liberica]
    );
    assert_eq!(
        download_candidate_distributions(JavaDistribution::Zulu, 21, os, arch),
        vec![JavaDistribution::Zulu]
    );
}

#[test]
fn archive_kinds() {
    assert_eq!(runtime_archive_kind(OperatingSystem::WINDOWS).unwrap(), ArchiveKind::Zip);
    assert_eq!(runtime_archive_kind(OperatingSystem::LINUX).unwrap(), ArchiveKind::TarGz);
    assert_eq!(runtime_archive_kind(OperatingSystem::OSX).unwrap(), ArchiveKind::TarGz);
    assert!(matches!(runtime_archive_kind(OperatingSystem::UNKNOWN), Err(JreError::UnsupportedOS)));
}

#[test]
fn jre_root_selection() {
    let e = |p: &str, j: bool| JreDirEntry { path: p.to_string(), looks_like_jre: j };
    assert_eq!(select_jre_root(&[e("a", false), e("b", true), e("c", true)]), Some(1));
    assert_eq!(select_jre_root(&[e("a", false), e("b", false)]), Some(0));
    assert_eq!(select_jre_root(&[]), None);
}

#[test]
fn java_binary_locations() {
    assert_eq!(
        build_java_binary_path(OperatingSystem::WINDOWS, "C:\\rt\\jdk", false, None),
        "C:\\rt\\jdk\\bin\\java.exe"
    );
    assert_eq!(
        build_java_binary_path(OperatingSystem::LINUX, "/rt/jdk", true, None),
        "/rt/jdk/bin/java"
    );
    assert_eq!(
        build_java_binary_path(OperatingSystem::OSX, "/rt/jdk", true, None),
        "/rt/jdk/Contents/Home/bin/java"
    );
    assert_eq!(
        build_java_binary_path(OperatingSystem::OSX, "/rt/jdk", false, Some("/rt/jdk/x.jre/Contents/Home/bin/java".to_string())),
        "/rt/jdk/x.jre/Contents/Home/bin/java"
    );
    assert_eq!(
        build_java_binary_path(OperatingSystem::OSX, "/rt/jdk", false, None),
        "/rt/jdk/bin/java"
    );
}

#[test]
fn retry_only_permission_errors_before_the_last_attempt() {
    assert!(should_retry_attempt(1, 3, true));
    assert!(should_retry_attempt(2, 3, true));
    assert!(!should_retry_attempt(3, 3, true));
    assert!(!should_retry_attempt(1, 3, false));
}

#[test]
fn executable_permissions() {
    assert_eq!(executable_mode_update(0o644), Some(0o755));
    assert_eq!(executable_mode_update(0o100), None);
    assert_eq!(executable_mode_update(0o755), None);
}

#[test]
fn nested_bundles() {
    let e = |p: &str, d: bool, j: bool| BundleEntry { path: p.to_string(), is_dir: d, java_exists: j };
    assert_eq!(
        find_nested_bundle(
            OperatingSystem::OSX,
            &[e("/r/readme.jre", false, true), e("/r/a", true, true), e("/r/zulu-8.jre", true, true)]
        ),
        Some("/r/zulu-8.jre/Contents/Home/bin/java".to_string())
    );
    assert_eq!(find_nested_bundle(OperatingSystem::OSX, &[e("/r/zulu-8.jre", true, false)]), None);
    assert_eq!(find_nested_bundle(OperatingSystem::OSX, &[e("/r/..", true, true), e("/r/z.jre", true, true)]), None);
}

#[test]
fn progress_total() {
    assert_eq!(effective_progress_total(10, 20), 10);
    assert_eq!(effective_progress_total(0, 20), 20);
}
