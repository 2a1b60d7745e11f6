use rust_sysroot::host::host_triple;
use rust_sysroot::commit::Commit;
use rust_sysroot::sysroot::{
    install_order, module_variant, next_attempt, Sysroot, plan_entry, relative_path, shared_library_ext, Compression,
    EntryPlan, ExtractError, ModuleVariant, Source, SysrootDownload, CARGO_CUTOFF,
    FALLBACK_CARGO_SHA,
};

fn download(sha: &str, date: i64, preserve: bool) -> (SysrootDownload, bool) {
    let c = Commit::new(sha.to_string(), date, String::new());
    SysrootDownload::new(&c, "x86_64-unknown-linux-gnu", preserve)
}

#[test]
fn module_names_round_trip() {
    for v in [ModuleVariant::Cargo, ModuleVariant::Rustc, ModuleVariant::Std] {
        assert_eq!(module_variant(v.name()), Some(v));
    }
    assert_eq!(ModuleVariant::Std.name(), "rust-std");
    assert_eq!(module_variant("rust-docs"), None);
}

#[test]
fn install_order_is_compiler_std_tool() {
    assert_eq!(install_order(), vec![ModuleVariant::Rustc, ModuleVariant::Std, ModuleVariant::Cargo]);
}

#[test]
fn old_commit_uses_fallback_build_tool() {
    let (d, fallback) = download("abc", CARGO_CUTOFF - 1, false);
    assert!(fallback);
    assert_eq!(d.get_module("cargo").unwrap().sha(), FALLBACK_CARGO_SHA);
    assert_eq!(d.get_module("rustc").unwrap().sha(), "abc");
    assert_eq!(d.get_module("rust-std").unwrap().sha(), "abc");
}

#[test]
fn new_commit_uses_own_build_tool() {
    let (d, fallback) = download("abc", CARGO_CUTOFF, false);
    assert!(!fallback);
    assert_eq!(d.get_module("cargo").unwrap().sha(), "abc");
    assert!(d.get_module("docs").is_none());
}

#[test]
fn urls_follow_each_layout() {
    let (d, _) = download("abc", CARGO_CUTOFF + 10, false);
    let urls = d.get_module("rust-std").unwrap().urls();
    assert_eq!(
        urls,
        vec![
            "https://s3.amazonaws.com/rust-lang-ci/rustc-builds/abc/rust-std-nightly-x86_64-unknown-linux-gnu.tar.xz",
            "https://s3.amazonaws.com/rust-lang-ci/rustc-builds/abc/rust-std-nightly-x86_64-unknown-linux-gnu.tar.gz",
            "https://s3.amazonaws.com/rust-lang-ci/rustc-builds/abc/dist/rust-std-nightly-x86_64-unknown-linux-gnu.tar.gz",
            "https://s3.amazonaws.com/rust-lang-ci/rustc-builds/abc/rust-std-1.16.0-dev-x86_64-unknown-linux-gnu.tar.gz",
            "https://s3.amazonaws.com/rust-lang-ci/rustc-builds-try/abc/rust-std-nightly-x86_64-unknown-linux-gnu.tar.xz",
        ]
    );
}

#[test]
fn archive_paths_in_cache() {
    let (d, _) = download("abc", CARGO_CUTOFF - 1, false);
    let m = d.get_module("cargo").unwrap();
    assert_eq!(
        m.archive_path(Compression::Gz),
        format!("cache/{}-x86_64-unknown-linux-gnu-cargo.tar.gz", FALLBACK_CARGO_SHA)
    );
}

#[test]
fn sources_try_cache_then_mirrors() {
    let (d, _) = download("abc", CARGO_CUTOFF + 1, true);
    let sources = d.get_and_extract("rustc").unwrap();
    assert_eq!(sources.len(), 7);
    match &sources[0] {
        Source::Cached { path, compression } => {
            assert_eq!(path, "cache/abc-x86_64-unknown-linux-gnu-rustc.tar.xz");
            assert_eq!(*compression, Compression::Xz);
        }
        other => panic!("unexpected {:?}", other),
    }
    match &sources[1] {
        Source::Cached { path, .. } => assert_eq!(path, "cache/abc-x86_64-unknown-linux-gnu-rustc.tar.gz"),
        other => panic!("unexpected {:?}", other),
    }
    match &sources[3] {
        Source::Remote { url, compression, archive, save } => {
            assert!(url.ends_with("/rustc-nightly-x86_64-unknown-linux-gnu.tar.gz"));
            assert_eq!(*compression, Compression::Gz);
            assert_eq!(archive, "cache/abc-x86_64-unknown-linux-gnu-rustc.tar.gz");
            assert!(*save);
        }
        other => panic!("unexpected {:?}", other),
    }
    assert!(d.get_and_extract("clippy").is_none());
}

#[test]
fn sysroot_paths_and_cleanup() {
    let (d, fallback) = download("abc", CARGO_CUTOFF + 1, false);
    assert_eq!(d.extraction_root(), "cache/abc");
    let s = d.into_sysroot(fallback, false);
    assert_eq!(s.rustc, "cache/abc/rustc/bin/rustc");
    assert_eq!(s.rustdoc, "cache/abc/rustc/bin/rustdoc");
    assert_eq!(s.cargo, "cache/abc/cargo/bin/cargo");
    assert_eq!(s.removal_on_drop(), Some("cache/abc".to_string()));
    let (d, fallback) = download("abc", CARGO_CUTOFF + 1, true);
    let s = d.into_sysroot(fallback, true);
    assert!(s.preserve);
    assert_eq!(s.removal_on_drop(), None);
}

#[test]
fn environment_has_absolute_and_relative_paths() {
    let (d, fallback) = download("abc", CARGO_CUTOFF + 1, false);
    let mut s = d.into_sysroot(fallback, true);
    s.rustc = format!("/work/{}", s.rustc);
    s.rustdoc = format!("/work/{}", s.rustdoc);
    s.cargo = format!("/work/{}", s.cargo);
    let env = s.environment("/usr/bin".to_string(), "/work").unwrap();
    let names: Vec<&str> = env.iter().map(|(k, _)| k.as_str()).collect();
    assert_eq!(
        names,
        vec!["PATH", "CARGO", "CARGO_RELATIVE", "RUSTC", "RUSTC_RELATIVE", "RUSTDOC", "RUSTDOC_RELATIVE"]
    );
    assert_eq!(env[0].1, "/usr/bin");
    assert_eq!(env[2].1, "cache/abc/cargo/bin/cargo");
    assert_eq!(env[3].1, "/work/cache/abc/rustc/bin/rustc");
    assert!(s.environment(String::new(), "/elsewhere").is_none());
}

#[test]
fn relative_paths() {
    assert_eq!(relative_path("/a/b/c", "/a"), Some("b/c".to_string()));
    assert_eq!(relative_path("/a", "/a"), Some(String::new()));
    assert_eq!(relative_path("/ab/c", "/a"), None);
}

fn unpack(p: Result<EntryPlan, ExtractError>) -> Option<String> {
    match p {
        Ok(EntryPlan::Unpack(s)) => Some(s),
        _ => None,
    }
}

#[test]
fn compiler_entries_lose_container() {
    let p = plan_entry(ModuleVariant::Rustc, "x86_64-unknown-linux-gnu", "rustc-nightly-x86_64-unknown-linux-gnu/rustc/bin/rustc");
    assert_eq!(unpack(p), Some("rustc/bin/rustc".to_string()));
    let p = plan_entry(ModuleVariant::Cargo, "x86_64-unknown-linux-gnu", "cargo-nightly/cargo/bin/cargo");
    assert_eq!(unpack(p), Some("cargo/bin/cargo".to_string()));
    assert!(matches!(plan_entry(ModuleVariant::Rustc, "t", "container"), Ok(EntryPlan::Skip)));
    assert!(matches!(plan_entry(ModuleVariant::Rustc, "t", "container/"), Ok(EntryPlan::Skip)));
}

#[test]
fn std_entries_are_relocated_or_dropped() {
    let t = "x86_64-unknown-linux-gnu";
    let p = plan_entry(ModuleVariant::Std, t, "rust-std-nightly/rust-std-x86_64-unknown-linux-gnu/lib/rustlib/x86_64-unknown-linux-gnu/lib/libcore.rlib");
    assert_eq!(unpack(p), Some("rustc/lib/rustlib/x86_64-unknown-linux-gnu/lib/libcore.rlib".to_string()));
    let p = plan_entry(ModuleVariant::Std, t, "rust-std-nightly/manifest.in");
    assert!(matches!(p, Ok(EntryPlan::Skip)));
}

#[test]
fn std_shared_libraries_are_linked() {
    let t = "x86_64-unknown-linux-gnu";
    let p = plan_entry(ModuleVariant::Std, t, "rust-std-nightly/rust-std-x86_64-unknown-linux-gnu/lib/rustlib/x86_64-unknown-linux-gnu/lib/libstd-abc.so");
    match p {
        Ok(EntryPlan::Link { src, dst }) => {
            assert_eq!(src, "rustc/lib/libstd-abc.so");
            assert_eq!(dst, "rustc/lib/rustlib/x86_64-unknown-linux-gnu/lib/libstd-abc.so");
        }
        other => panic!("unexpected {:?}", other),
    }
    let t = "x86_64-apple-darwin";
    let p = plan_entry(ModuleVariant::Std, t, "c/rust-std-x86_64-apple-darwin/lib/rustlib/x86_64-apple-darwin/lib/libstd.dylib");
    assert!(matches!(p, Ok(EntryPlan::Link { .. })));
    let p = plan_entry(ModuleVariant::Std, t, "c/rust-std-x86_64-apple-darwin/lib/rustlib/other/libstd.dylib");
    assert!(matches!(p, Err(ExtractError::MissingLibraryPrefix)));
}

#[test]
fn shared_library_extensions() {
    assert_eq!(shared_library_ext("x86_64-apple-darwin"), "dylib");
    assert_eq!(shared_library_ext("x86_64-pc-windows-msvc"), "dll");
    assert_eq!(shared_library_ext("x86_64-pc-windows-gnu"), "dll");
    assert_eq!(shared_library_ext("x86_64-unknown-linux-gnu"), "so");
}

#[test]
fn host_triple_from_version_output() {
    let out = "rustc 1.70.0 (90c541806 2023-05-31)\nbinary: rustc\nhost: x86_64-unknown-linux-gnu\nrelease: 1.70.0\n";
    assert_eq!(host_triple(out), Some("x86_64-unknown-linux-gnu".to_string()));
    assert_eq!(host_triple("host: a"), Some("a".to_string()));
    assert_eq!(host_triple("binary: rustc\n"), None);
    assert_eq!(host_triple(""), None);
}

#[test]
fn saved_archive_is_tried_before_any_mirror() {
    let (d, _) = download("abc", CARGO_CUTOFF + 1, true);
    let sources = d.get_and_extract("rust-std").unwrap();
    let present = vec![false, true, false, false, false, false, false];
    assert_eq!(next_attempt(&sources, &present, 0), Some(1));
    assert_eq!(next_attempt(&sources, &present, 2), Some(2));
    let none_present = vec![false; 7];
    assert_eq!(next_attempt(&sources, &none_present, 0), Some(2));
    assert_eq!(next_attempt(&sources, &none_present, 7), None);
    assert_eq!(next_attempt(&sources, &Vec::new(), 0), Some(2));
}

#[test]
fn local_rustc_sysroot() {
    let (d, fallback) = download("abc", CARGO_CUTOFF - 5, false);
    let s = Sysroot::with_local_rustc(d, "/opt/rust/bin/rustc".to_string(), fallback, false).unwrap();
    assert_eq!(s.rustc, "/opt/rust/bin/rustc");
    assert_eq!(s.rustdoc, "/opt/rust/bin/rustdoc");
    assert_eq!(s.cargo, "cache/abc/cargo/bin/cargo");
    assert!(s.used_fallback_cargo);
    let (d, fallback) = download("abc", CARGO_CUTOFF, false);
    assert!(Sysroot::with_local_rustc(d, "rustc".to_string(), fallback, false).is_none());
    let (d, fallback) = download("abc", CARGO_CUTOFF, false);
    let s = Sysroot::with_local_rustc(d, "/rustc".to_string(), fallback, false).unwrap();
    assert_eq!(s.rustdoc, "/rustdoc");
}
