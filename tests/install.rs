use appmgr::db::model::{MainStatus, PackageDataEntry, Registry};
use appmgr::error::Error;
use appmgr::hash::hash_str;
use appmgr::install::cache::{check_cache, Download};
use appmgr::install::commit::{commit_install, configured_after_migration};
use appmgr::install::outcome::finish_install;
use appmgr::install::progress::{InstallProgress, SnapshotTimer, SNAPSHOT_EVERY};
use appmgr::install::request::install_request;
use appmgr::install::transitions::{begin_install, save_progress};
use appmgr::s9pk::builder::S9pkPacker;
use appmgr::s9pk::id::PackageId;
use appmgr::s9pk::manifest::{Alerts, DepInfo, Dependencies, Manifest, Version};

fn pid(s: &str) -> PackageId {
    PackageId::try_from(s.to_string()).unwrap()
}

fn manifest(id: &str, version: Version, deps: &[(&str, bool)], has_config: bool) -> Manifest {
    Manifest {
        id: pid(id),
        title: id.to_uppercase(),
        version,
        release_notes: String::new(),
        license: "MIT".to_string(),
        wrapper_repo: "https://example.com/wrapper".to_string(),
        upstream_repo: "https://example.com/upstream".to_string(),
        support_page: None,
        marketing_page: None,
        alerts: Alerts::default(),
        min_os_version: Version::new(0, 3, 0, 0),
        dependencies: Dependencies(
            deps.iter()
                .map(|(d, optional)| {
                    (
                        pid(d),
                        DepInfo {
                            version: "*".to_string(),
                            optional: if *optional { Some("extra".to_string()) } else { None },
                        },
                    )
                })
                .collect(),
        ),
        has_config,
        has_instructions: false,
        icon_type: "png".to_string(),
    }
}

fn archive(image_len: usize) -> Vec<u8> {
    let p = S9pkPacker {
        manifest: vec![0xa0],
        config_spec: vec![0xa0],
        icon: vec![1, 2, 3],
        app_image: (0..image_len).map(|i| (i % 253) as u8).collect(),
        license: b"MIT".to_vec(),
        instructions: None,
    };
    let mut out = Vec::new();
    p.pack(&mut out);
    out
}

fn install(reg: &mut Registry, m: Manifest) {
    begin_install(reg, m.clone(), InstallProgress::new(None)).unwrap();
    commit_install(reg, m, Vec::new()).unwrap();
}

#[test]
fn second_install_of_transient_slot_conflicts() {
    let mut reg = Registry::new();
    let m = manifest("foo", Version::new(1, 0, 0, 0), &[], false);
    assert_eq!(begin_install(&mut reg, m.clone(), InstallProgress::new(Some(1))), Ok(()));
    assert_eq!(
        begin_install(&mut reg, m.clone(), InstallProgress::new(Some(2))),
        Err(Error::ConflictingTransientState)
    );
    match reg.get(&pid("foo")) {
        Some(PackageDataEntry::Installing { install_progress, static_files, .. }) => {
            assert_eq!(install_progress.size(), Some(1));
            assert_eq!(
                static_files.license,
                "/mnt/embassy-os/public/package-data/foo/1.0.0/LICENSE.md"
            );
            assert_eq!(static_files.icon, "/mnt/embassy-os/public/package-data/foo/1.0.0/icon.png");
        }
        other => panic!("unexpected slot {:?}", other),
    }
}

#[test]
fn updating_keeps_previous_version_and_conflicts_too() {
    let mut reg = Registry::new();
    install(&mut reg, manifest("foo", Version::new(1, 0, 0, 0), &[], false));
    let next = manifest("foo", Version::new(1, 1, 0, 0), &[], false);
    assert_eq!(begin_install(&mut reg, next.clone(), InstallProgress::new(None)), Ok(()));
    match reg.get(&pid("foo")) {
        Some(PackageDataEntry::Updating { manifest, installed, .. }) => {
            assert_eq!(manifest.version, Version::new(1, 0, 0, 0));
            assert_eq!(installed.manifest.version, Version::new(1, 0, 0, 0));
        }
        other => panic!("unexpected slot {:?}", other),
    }
    assert_eq!(
        begin_install(&mut reg, next.clone(), InstallProgress::new(None)),
        Err(Error::ConflictingTransientState)
    );
    let prev = commit_install(&mut reg, next, Vec::new()).unwrap().unwrap();
    assert_eq!(prev.manifest.version, Version::new(1, 0, 0, 0));
    match reg.get(&pid("foo")) {
        Some(PackageDataEntry::Installed { manifest, .. }) => {
            assert_eq!(manifest.version, Version::new(1, 1, 0, 0))
        }
        other => panic!("unexpected slot {:?}", other),
    }
}

#[test]
fn dependents_are_recomputed_on_commit() {
    let mut reg = Registry::new();
    install(&mut reg, manifest("a", Version::new(1, 0, 0, 0), &[], true));
    install(&mut reg, manifest("b", Version::new(2, 0, 0, 0), &[("a", false), ("c", true)], false));
    match reg.get(&pid("a")) {
        Some(PackageDataEntry::Installed { installed, .. }) => {
            assert_eq!(installed.current_dependents.len(), 1);
            assert!(installed.current_dependents.contains_key(&pid("b")));
            assert!(!installed.status.configured);
        }
        other => panic!("unexpected slot {:?}", other),
    }
    match reg.get(&pid("b")) {
        Some(PackageDataEntry::Installed { installed, .. }) => {
            assert_eq!(installed.current_dependencies.len(), 1);
            assert!(installed.current_dependencies.contains_key(&pid("a")));
            assert!(installed.current_dependents.is_empty());
            assert!(installed.status.dependency_errors.is_empty());
            assert!(installed.status.configured);
            assert_eq!(installed.status.main, MainStatus::Stopped);
        }
        other => panic!("unexpected slot {:?}", other),
    }
    // a package installed after its dependent finds it by scanning
    install(&mut reg, manifest("c", Version::new(1, 0, 0, 0), &[("a", false)], false));
    install(&mut reg, manifest("d", Version::new(1, 0, 0, 0), &[("e", false)], false));
    match reg.get(&pid("d")) {
        Some(PackageDataEntry::Installed { installed, .. }) => {
            assert_eq!(installed.status.dependency_errors, vec![pid("e")]);
        }
        other => panic!("unexpected slot {:?}", other),
    }
    install(&mut reg, manifest("e", Version::new(1, 0, 0, 0), &[], false));
    match reg.get(&pid("e")) {
        Some(PackageDataEntry::Installed { installed, .. }) => {
            assert!(installed.current_dependents.contains_key(&pid("d")));
        }
        other => panic!("unexpected slot {:?}", other),
    }
    match reg.get(&pid("a")) {
        Some(PackageDataEntry::Installed { installed, .. }) => {
            let keys: Vec<&str> = installed.current_dependents.keys().map(|k| k.as_str()).collect();
            assert_eq!(keys, vec!["b", "c"]);
        }
        other => panic!("unexpected slot {:?}", other),
    }
}

#[test]
fn registry_keys_with_and_without_transient_slots() {
    let mut reg = Registry::new();
    install(&mut reg, manifest("a", Version::new(1, 0, 0, 0), &[], false));
    begin_install(&mut reg, manifest("b", Version::new(1, 0, 0, 0), &[], false), InstallProgress::new(None))
        .unwrap();
    install(&mut reg, manifest("c", Version::new(1, 0, 0, 0), &[], false));
    let all: Vec<String> = reg.keys(true).iter().map(|k| k.as_str().to_string()).collect();
    assert_eq!(all, vec!["a", "b", "c"]);
    let installed: Vec<String> = reg.keys(false).iter().map(|k| k.as_str().to_string()).collect();
    assert_eq!(installed, vec!["a", "c"]);
}

#[test]
fn commit_without_slot_is_refused() {
    let mut reg = Registry::new();
    let m = manifest("foo", Version::new(1, 0, 0, 0), &[], false);
    assert_eq!(commit_install(&mut reg, m, Vec::new()).unwrap_err(), Error::MissingPackage);
}

#[test]
fn cache_hit_reuses_archive_without_download() {
    let bytes = archive(1000);
    let hash = hash_str(&bytes);
    let progress = InstallProgress::new(Some(bytes.len() as u64));
    let mut rdr = check_cache(Some(&hash), Some(bytes.clone())).unwrap();
    assert_eq!(rdr.validate(), Ok(()));
    assert_eq!(rdr.app_image().len(), 1000);
    assert_eq!(progress.downloaded(), 0);
}

#[test]
fn cache_misses() {
    let bytes = archive(10);
    let hash = hash_str(&bytes);
    assert!(check_cache(None, Some(bytes.clone())).is_none());
    assert!(check_cache(Some(&hash), None).is_none());
    assert!(check_cache(Some(&hash.to_uppercase()), Some(bytes.clone())).is_none());
    assert!(check_cache(Some(&hash_str(b"x")), Some(bytes.clone())).is_none());
    let mut corrupt = bytes.clone();
    corrupt[0] = 0;
    assert!(check_cache(Some(&hash_str(&corrupt)), Some(corrupt)).is_none());
}

#[test]
fn stale_cache_is_replaced_by_fresh_download() {
    let stale = archive(10);
    let fresh = archive(300);
    let hash = hash_str(&fresh);
    assert!(check_cache(Some(&hash), Some(stale)).is_none());
    let mut progress = InstallProgress::new(Some(fresh.len() as u64));
    let mut dl = Download::start();
    for chunk in fresh.chunks(7) {
        dl.receive(chunk, &mut progress);
    }
    assert_eq!(dl.bytes(), &fresh[..]);
    let rdr = dl.finish(&mut progress).unwrap();
    assert_eq!(rdr.hash_str(), hash);
    assert_eq!(progress.downloaded(), fresh.len() as u64);
    assert!(progress.is_download_complete());
}

#[test]
fn progress_counts_chunks_and_latches() {
    let mut p = InstallProgress::new(Some(10));
    assert_eq!(p.download_percent(), Some(0));
    let mut last = 0;
    for n in [3u64, 0, 4, 3] {
        p.track_download(n);
        assert!(p.downloaded() >= last);
        last = p.downloaded();
    }
    assert_eq!(p.downloaded(), 10);
    assert_eq!(p.download_percent(), Some(100));
    p.download_complete();
    p.track_download(5);
    assert_eq!(p.downloaded(), 10);
    assert!(p.is_download_complete());
    p.track_unpack(4);
    p.unpack_complete();
    p.track_unpack(4);
    assert_eq!(p.unpacked(), 4);
    assert!(p.is_unpack_complete());
    let mut q = InstallProgress::new(None);
    q.track_download(u64::MAX);
    q.track_download(1);
    assert_eq!(q.downloaded(), u64::MAX);
    assert_eq!(q.download_percent(), None);
    let mut r = InstallProgress::new(Some(4));
    r.track_download(6);
    assert_eq!(r.download_percent(), Some(100));
}

#[test]
fn progress_snapshot_is_saved_in_flight_only() {
    let mut reg = Registry::new();
    let m = manifest("foo", Version::new(1, 0, 0, 0), &[], false);
    begin_install(&mut reg, m.clone(), InstallProgress::new(Some(9))).unwrap();
    let mut p = InstallProgress::new(Some(9));
    p.track_download(5);
    save_progress(&mut reg, &pid("foo"), p);
    match reg.get(&pid("foo")) {
        Some(PackageDataEntry::Installing { install_progress, .. }) => {
            assert_eq!(install_progress.downloaded(), 5)
        }
        other => panic!("unexpected slot {:?}", other),
    }
}

fn end_to_end(load: Result<(), String>) -> (Registry, InstallProgress) {
    let req = install_request("foo@=1.0.0", "https://registry.example").unwrap();
    assert_eq!(
        req.manifest_url,
        format!("https://registry.example/package/manifest/foo?version={}", req.version_range)
    );
    let mut reg = Registry::new();
    assert!(reg.get(&pid("foo")).is_none());
    let m = manifest("foo", Version::new(1, 0, 0, 0), &[], false);
    let bytes = archive(10 * 1024 * 1024);
    let hash = hash_str(&bytes);
    let mut progress = InstallProgress::new(Some(bytes.len() as u64));
    begin_install(&mut reg, m.clone(), progress).unwrap();
    assert!(matches!(reg.get(&pid("foo")), Some(PackageDataEntry::Installing { .. })));
    assert!(check_cache(Some(&hash), None).is_none());
    let mut dl = Download::start();
    for chunk in bytes.chunks(64 * 1024) {
        dl.receive(chunk, &mut progress);
    }
    let mut rdr = dl.finish(&mut progress).unwrap();
    assert_eq!(rdr.validate(), Ok(()));
    assert_eq!(rdr.app_image().len(), 10 * 1024 * 1024);
    progress.track_unpack(rdr.app_image().len() as u64);
    progress.finish_unpack(&load);
    save_progress(&mut reg, &pid("foo"), progress);
    let _ = finish_install(&mut reg, m, load, Vec::new());
    (reg, progress)
}

#[test]
fn fresh_install_end_to_end() {
    let (reg, progress) = end_to_end(Ok(()));
    assert!(progress.is_unpack_complete());
    assert!(matches!(reg.get(&pid("foo")), Some(PackageDataEntry::Installed { .. })));
    assert!(reg.broken_packages().is_empty());
}

#[test]
fn image_load_failure_leaves_slot_and_records_broken() {
    let (reg, progress) = end_to_end(Err("no space left".to_string()));
    assert!(!progress.is_unpack_complete());
    match reg.get(&pid("foo")) {
        Some(PackageDataEntry::Installing { install_progress, .. }) => {
            assert!(!install_progress.is_unpack_complete())
        }
        other => panic!("unexpected slot {:?}", other),
    }
    assert!(matches!(reg.get(&pid("foo")), Some(PackageDataEntry::Installing { .. })));
    assert_eq!(reg.broken_packages(), &vec![pid("foo")]);
    let mut reg2 = Registry::new();
    let m = manifest("bar", Version::new(1, 0, 0, 0), &[], false);
    begin_install(&mut reg2, m.clone(), InstallProgress::new(None)).unwrap();
    assert_eq!(
        finish_install(&mut reg2, m, Err("boom".to_string()), Vec::new()).unwrap_err(),
        Error::ContainerRuntimeFailure("boom".to_string())
    );
}

#[test]
fn install_request_parsing() {
    let r = install_request("foo", "http://r").unwrap();
    assert_eq!(r.id, "foo");
    assert_eq!(r.s9pk_url, format!("http://r/package/foo.s9pk?version={}", r.version_range));
    let any = "*".parse::<emver::VersionRange>().unwrap().to_string();
    assert_eq!(r.version_range, any);
    let r = install_request("foo@>=1.2.0", "http://r").unwrap();
    let expected = ">=1.2.0".parse::<emver::VersionRange>().unwrap().to_string();
    assert_eq!(r.version_range, expected);
    assert_eq!(r.manifest_url, format!("http://r/package/manifest/foo?version={}", expected));
    let r = install_request("foo-bar@1.0.0@x", "http://r");
    assert!(r.is_err() || r.unwrap().id == "foo-bar");
    let r = install_request("foo@^1.2.3", "http://r").unwrap();
    assert_ne!(r.version_range, "^1.2.3");
    assert_eq!(r.version_range, "^1.2.3".parse::<emver::VersionRange>().unwrap().to_string());
    assert_eq!(install_request("Foo@*", "http://r").unwrap_err(), Error::InvalidIdentifier);
    assert_eq!(install_request("foo@not a range", "http://r").unwrap_err(), Error::InvalidVersion);
}

#[test]
fn range_with_usize_max_number_is_refused() {
    assert_eq!(
        install_request("foo@^18446744073709551615", "http://r").unwrap_err(),
        Error::InvalidVersion
    );
    assert_eq!(
        install_request("foo@~1.18446744073709551615", "http://r").unwrap_err(),
        Error::InvalidVersion
    );
    assert!(install_request("foo@^18446744073709551614", "http://r").is_ok());
    assert!(appmgr::parse::no_run_of_usize_max(">=1.2.3 <2.0.0"));
    assert!(appmgr::parse::no_run_of_usize_max("^18446744073709551616"));
    assert!(!appmgr::parse::no_run_of_usize_max("0018446744073709551615.x"));
}

#[test]
fn unpack_latch_follows_image_load() {
    let mut p = InstallProgress::new(None);
    p.finish_unpack(&Err("refused".to_string()));
    assert!(!p.is_unpack_complete());
    p.finish_unpack(&Ok(()));
    assert!(p.is_unpack_complete());
}

#[test]
fn snapshot_timer_fires_every_interval() {
    let mut t = SnapshotTimer::new();
    assert!(!t.record(SNAPSHOT_EVERY - 1));
    assert!(t.record(1));
    assert!(!t.record(10));
    assert!(t.record(u64::MAX));
    assert!(!t.record(0));
}

#[test]
fn configuration_after_migrations() {
    assert!(configured_after_migration(true, None, None));
    assert!(configured_after_migration(true, Some(true), Some(true)));
    assert!(!configured_after_migration(true, Some(false), None));
    assert!(!configured_after_migration(true, None, Some(false)));
    assert!(!configured_after_migration(false, Some(true), Some(true)));
}
