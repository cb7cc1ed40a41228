use lighty_launcher::arguments::{
    apply_arg_removals, apply_jvm_overrides, apply_jvm_removals, build_arguments,
    build_classpath, build_default_jvm_args, filter_classpath_from_modulepath,
    format_jvm_option, placeholders_well_nested, replace_variables_cow, replace_variables_in_vec,
    VariableMap, KEY_CLASSPATH, KEY_LAUNCHER_NAME, KEY_LAUNCHER_VERSION, KEY_NATIVES_DIRECTORY,
};
use lighty_launcher::system::OperatingSystem;
use lighty_launcher::version::{InstanceInfo, Library, Version, VersionArguments};

fn s(v: &str) -> String {
    v.to_string()
}

fn strings(v: &[&str]) -> Vec<String> {
    v.iter().map(|x| x.to_string()).collect()
}

fn vars(pairs: &[(&str, &str)]) -> VariableMap {
    let mut m = VariableMap::new();
    for (k, v) in pairs {
        m.insert(s(k), s(v));
    }
    m
}

#[test]
fn placeholders_are_replaced_and_unknown_ones_kept() {
    let m = vars(&[("auth_player_name", "Steve"), ("version_name", "1.21.1")]);
    assert_eq!(replace_variables_cow("--username ${auth_player_name}", &m), "--username Steve");
    assert_eq!(replace_variables_cow("${version_name}-${nope}", &m), "1.21.1-${nope}");
    assert_eq!(replace_variables_cow("plain", &m), "plain");
    assert_eq!(replace_variables_cow("${unclosed", &m), "${unclosed");
    assert_eq!(replace_variables_cow("a}${version_name}}b", &m), "a}1.21.1}b");
}

#[test]
fn nested_placeholders_are_detected() {
    assert!(placeholders_well_nested("${a}${b}"));
    assert!(placeholders_well_nested("${a${b"));
    assert!(!placeholders_well_nested("${a${b}"));
    assert!(placeholders_well_nested("no placeholder"));
}

#[test]
fn replace_in_vec_maps_each_argument() {
    let m = vars(&[("x", "1")]);
    assert_eq!(replace_variables_in_vec(&strings(&["${x}", "y", "${z}"]), &m), strings(&["1", "y", "${z}"]));
}

#[test]
fn jvm_option_formats() {
    assert_eq!(format_jvm_option("Xmx", "4G"), "-Xmx4G");
    assert_eq!(format_jvm_option("Xms", "2G"), "-Xms2G");
    assert_eq!(format_jvm_option("XX:+UseG1GC", ""), "-XX:+UseG1GC");
    assert_eq!(format_jvm_option("Djava.library.path", "/path"), "-Djava.library.path=/path");
    assert_eq!(format_jvm_option("XX:MaxGCPauseMillis", "50"), "-XX:MaxGCPauseMillis=50");
}

#[test]
fn jvm_overrides_replace_or_go_before_classpath() {
    let mut args = strings(&["-Xmx2G", "-Dfoo=1", "-cp", "a.jar"]);
    apply_jvm_overrides(&mut args, &[(s("Xmx"), s("4G")), (s("Dbar"), s("2")), (s("Dfoo=x"), s("3"))]);
    assert_eq!(args, strings(&["-Xmx4G", "-Dfoo=x=3", "-Dbar=2", "-cp", "a.jar"]));

    let mut no_cp = strings(&["-Xss1M"]);
    apply_jvm_overrides(&mut no_cp, &[(s("XX:+UseG1GC"), s(""))]);
    assert_eq!(no_cp, strings(&["-Xss1M", "-XX:+UseG1GC"]));
}

#[test]
fn jvm_removals_match_option_keys() {
    let mut args = strings(&["-Xmx4G", "-Djava.library.path=/n", "-XX:+UseG1GC", "-cp", "a.jar"]);
    apply_jvm_removals(&mut args, &strings(&["Xmx", "Djava.library.path"]));
    assert_eq!(args, strings(&["-XX:+UseG1GC", "-cp", "a.jar"]));
}

#[test]
fn arg_removals_drop_exact_and_dashed_matches() {
    let game = strings(&["--demo", "--width", "800", "demo", "--demoMode"]);
    assert_eq!(apply_arg_removals(game, &strings(&["demo"])), strings(&["--width", "800"]));
}

#[test]
fn default_jvm_args_use_variables() {
    let m = vars(&[
        (KEY_NATIVES_DIRECTORY, "/n"),
        (KEY_LAUNCHER_NAME, "Lighty"),
        (KEY_CLASSPATH, "a.jar"),
    ]);
    let _ = KEY_LAUNCHER_VERSION;
    assert_eq!(
        build_default_jvm_args(&m),
        strings(&[
            "-Xms1024M",
            "-Xmx2048M",
            "-Djava.library.path=/n",
            "-Dminecraft.launcher.brand=Lighty",
            "-Dminecraft.launcher.version=",
            "-cp",
            "a.jar",
        ])
    );
}

#[test]
fn classpath_filter_drops_module_artifacts() {
    let cp = "/l/asm-9.5.jar:/l/asm-analysis-9.5.jar:/l/guava-31.jar:/l/notes.txt";
    let mp = "/m/asm-9.6.jar:/m/guava-32.1.jar";
    assert_eq!(
        filter_classpath_from_modulepath(OperatingSystem::LINUX, cp, mp),
        "/l/asm-analysis-9.5.jar:/l/notes.txt"
    );
    assert_eq!(
        filter_classpath_from_modulepath(OperatingSystem::WINDOWS, "C:\\l\\asm-9.5.jar;C:\\l\\b.jar", "C:\\m\\asm-9.1.jar"),
        "C:\\l\\b.jar"
    );
}

fn instance() -> InstanceInfo {
    InstanceInfo {
        name: s("1.21.1"),
        game_dir: s("/games/inst"),
        minecraft_version: s("1.21.1"),
        loader_version: s(""),
    }
}

fn library(path: Option<&str>) -> Library {
    Library { name: s("lib"), url: None, path: path.map(s), sha1: None }
}

#[test]
fn classpath_lists_libraries_then_client() {
    let libs = vec![library(Some("a/b/c.jar")), library(None), library(Some("d.jar"))];
    assert_eq!(
        build_classpath(OperatingSystem::LINUX, &instance(), &libs),
        "/games/inst/libraries/a/b/c.jar:/games/inst/libraries/d.jar:/games/inst/1.21.1.jar"
    );
}

#[test]
fn full_launch_command_line() {
    let version = Version {
        main_class: s("net.minecraft.client.main.Main"),
        arguments: VersionArguments {
            game: strings(&["--username", "${auth_player_name}", "--version", "${version_name}", "--unknown", "${missing}"]),
            jvm: Some(strings(&["-Djava.library.path=${natives_directory}", "-cp", "${classpath}"])),
        },
        assets_index_id: Some(s("17")),
        libraries: vec![library(Some("a/b/c.jar"))],
        java_major_version: 21,
    };
    let args = build_arguments(
        OperatingSystem::LINUX,
        &instance(),
        &version,
        "Steve",
        "uuid",
        "Lighty",
        "1.0",
        &[],
        &strings(&["unknown"]),
        &[(s("Xmx"), s("4G"))],
        &[],
        &strings(&["--demo"]),
    );
    assert_eq!(
        args,
        strings(&[
            "-Dminecraft.launcher.version=1.0",
            "-Dminecraft.launcher.brand=Lighty",
            "-Djava.library.path=/games/inst/natives",
            "-Xmx4G",
            "-cp",
            "/games/inst/libraries/a/b/c.jar:/games/inst/1.21.1.jar",
            "net.minecraft.client.main.Main",
            "--username",
            "Steve",
            "--version",
            "1.21.1",
            "${missing}",
            "--demo",
        ])
    );
}

#[test]
fn legacy_version_gets_default_jvm_args_and_macos_flag() {
    let version = Version {
        main_class: s("Main"),
        arguments: VersionArguments { game: vec![], jvm: None },
        assets_index_id: None,
        libraries: vec![],
        java_major_version: 8,
    };
    let args = build_arguments(
        OperatingSystem::OSX,
        &instance(),
        &version,
        "Steve",
        "uuid",
        "Lighty",
        "1.0",
        &[(s("natives_directory"), s("/custom"))],
        &[],
        &[],
        &strings(&["Xms"]),
        &[],
    );
    assert_eq!(
        args,
        strings(&[
            "-XstartOnFirstThread",
            "-Xmx2048M",
            "-Djava.library.path=/custom",
            "-Dminecraft.launcher.brand=Lighty",
            "-Dminecraft.launcher.version=1.0",
            "-cp",
            "/games/inst/1.21.1.jar",
            "Main",
        ])
    );
}

#[test]
fn setting_an_option_twice_equals_once() {
    let base = strings(&["-Xmx2G", "-Dfoo=1", "-cp", "a.jar"]);
    let ov = vec![(s("Xmx"), s("4G")), (s("Dbar"), s("2"))];
    let mut once = base.clone();
    apply_jvm_overrides(&mut once, &ov);
    let mut twice = once.clone();
    apply_jvm_overrides(&mut twice, &ov);
    assert_eq!(once, twice);
    assert_eq!(once, strings(&["-Xmx4G", "-Dfoo=1", "-Dbar=2", "-cp", "a.jar"]));
}

#[test]
fn removing_twice_equals_once() {
    let removals = strings(&["Xmx", "width"]);
    let mut jvm = strings(&["-Xmx2G", "-Xms1G", "plain"]);
    apply_jvm_removals(&mut jvm, &removals);
    let once = jvm.clone();
    apply_jvm_removals(&mut jvm, &removals);
    assert_eq!(jvm, once);
    let game = apply_arg_removals(strings(&["--width", "854", "--height", "480", "width"]), &removals);
    assert_eq!(apply_arg_removals(game.clone(), &removals), game);
}
