# lighty_launcher

The core of a modular Minecraft launcher, written in Verus: the rules it
follows are stated as contracts and proved.

## Layout

- `src/` — the verified library
  - `arguments.rs` — placeholder substitution, JVM option overrides and
    removals, classpath and module-path filtering, the full command line
  - `instance.rs` — log analysis and the registry of running instances
  - `java.rs` — Java distributions, fallbacks, runtime paths and URLs
  - `runner.rs` — the launch stages and the decisions between them
  - `download.rs` — mirror/client order of download attempts, progress
  - `installer.rs` — downloader settings, retries, file destinations,
    native-library detection
  - `hash.rs`, `hosts.rs`, `app_state.rs`, `events.rs`, `system.rs`,
    `version.rs`, `launch.rs` — hashing, the hosts-file guard, launcher
    paths and UUIDs, events, platform paths, version data, launch settings
  - `text.rs` — string and sequence helpers with their specifications
- `tests/` — tests run against the compiled library
- `app/` — the input/output around it: HTTP, files, processes, the event
  bus, global state

The public proof functions (`lemma_*`) state the laws the library keeps,
such as "setting the same JVM option twice has the effect of setting it
once" or "the distribution installed always provides the requested Java
version".

## Dependencies used only by `app/`

`flate2` and `tar` unpack the `.tar.gz` Java runtimes of Linux and macOS
(`app/java.rs`); `zip` unpacks the Windows ones. Runtime archives are
extracted by this crate's own glue, so it needs a gzip and a tar reader of
its own.
