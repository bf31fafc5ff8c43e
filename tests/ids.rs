use appmgr::action::DockerAction;
use appmgr::context::ExtendedContext;
use appmgr::id::{Id, ImageId, InterfaceId};
use appmgr::install::paths::cache_path;
use appmgr::s9pk::id::PackageId;
use appmgr::s9pk::manifest::Version;
use appmgr::text::{decimal_string, hex_string};
use appmgr::volume::{Volume, VolumeId, Volumes};

fn pid(s: &str) -> PackageId {
    PackageId::try_from(s.to_string()).unwrap()
}

fn vid(s: &str) -> VolumeId {
    VolumeId(Id::try_from(s.to_string()).unwrap())
}

#[test]
fn package_ids_accept_lowercase_and_hyphens_only() {
    assert_eq!(pid("bitcoin-core").as_str(), "bitcoin-core");
    assert!(PackageId::try_from(String::new()).is_ok());
    assert!(PackageId::try_from("Bitcoin".to_string()).is_err());
    assert!(PackageId::try_from("btc1".to_string()).is_err());
    assert!(PackageId::try_from("a_b".to_string()).is_err());
    assert!(PackageId::try_from("é".to_string()).is_err());
    assert!(Id::try_from("main".to_string()).is_ok());
    assert!(Id::try_from("main/x".to_string()).is_err());
}

#[test]
fn versions_parse_and_print() {
    let v = Version::parse("1.2.3").unwrap();
    assert_eq!(v, Version::new(1, 2, 3, 0));
    assert_eq!(v.as_string(), "1.2.3");
    assert_eq!(Version::parse("0.3.0.7").unwrap().as_string(), "0.3.0.7");
    assert_eq!(Version::new(10, 0, 250, 0).as_string(), "10.0.250");
    assert!(Version::parse("x.y").is_err());
}

#[test]
fn cache_path_is_keyed_by_package_and_version() {
    assert_eq!(
        cache_path(&pid("foo"), Version::new(1, 0, 0, 0)),
        "/mnt/embassy-os/cache/packages/foo/1.0.0/foo.s9pk"
    );
}

#[test]
fn volume_paths() {
    let pkg = pid("foo");
    let main = vid("main");
    assert_eq!(Volume::Data.path_for(&pkg, &main), "/mnt/embassy-os/app-data/foo/volumes/main");
    assert!(!Volume::Data.read_only());
    let ptr = Volume::Pointer {
        package_id: pid("bar"),
        volume_id: vid("data"),
        path: "sub/dir".to_string(),
        read_only: true,
    };
    assert_eq!(ptr.path_for(&pkg, &main), "/mnt/embassy-os/app-data/bar/volumes/data/sub/dir");
    assert!(ptr.read_only());
    let abs = Volume::Pointer {
        package_id: pid("bar"),
        volume_id: vid("data"),
        path: "/etc".to_string(),
        read_only: false,
    };
    assert_eq!(abs.path_for(&pkg, &main), "/etc");
    assert!(!abs.read_only());
    let iface = InterfaceId(Id::try_from("tor".to_string()).unwrap());
    let cert = Volume::Certificate { interface_id: iface.clone() };
    assert_eq!(cert.path_for(&pkg, &main), "/mnt/embassy-os/app-data/foo/certificates/tor");
    assert!(cert.read_only());
    let hs = Volume::HiddenService { interface_id: iface };
    assert_eq!(hs.path_for(&pkg, &main), "/mnt/embassy-os/app-data/foo/hidden-services/tor");
    assert!(hs.read_only());
}

#[test]
fn decimal_and_hex_renderings() {
    assert_eq!(decimal_string(0), "0");
    assert_eq!(decimal_string(9), "9");
    assert_eq!(decimal_string(10), "10");
    assert_eq!(decimal_string(u64::MAX), "18446744073709551615");
    assert_eq!(hex_string(&[]), "");
    assert_eq!(hex_string(&[0x00, 0x0f, 0xa5, 0xff]), "000fa5ff");
}

#[test]
fn extended_context_maps_extension() {
    let ctx = ExtendedContext::new("base", 2u32);
    let mapped = ctx.map(|x| x * 10);
    assert_eq!(*mapped.base(), "base");
    assert_eq!(mapped.extension, 20);
}

#[test]
fn docker_action_arguments() {
    let pkg = pid("foo");
    let mut vols = hashlink::LinkedHashMap::new();
    vols.insert(vid("main"), Volume::Data);
    let volumes = Volumes(vols);
    assert_eq!(
        volumes.get_path_for(&pkg, &vid("main")),
        Some("/mnt/embassy-os/app-data/foo/volumes/main".to_string())
    );
    assert_eq!(volumes.get_path_for(&pkg, &vid("other")), None);
    let mut mounts = hashlink::LinkedHashMap::new();
    mounts.insert(vid("main"), "/root/data".to_string());
    mounts.insert(vid("missing"), "/x".to_string());
    let action = DockerAction {
        image: ImageId(Id::try_from("main".to_string()).unwrap()),
        entrypoint: "run.sh".to_string(),
        args: vec!["--flag".to_string(), "v".to_string()],
        mounts,
        io_format: None,
        shm_size_mb: Some(64),
    };
    let v = Version::new(0, 3, 0, 2);
    assert_eq!(action.image.for_package(&pkg, v), "start9/foo/main:0.3.0.2");
    assert_eq!(action.container_name(&pkg), "foo_main");
    assert_eq!(
        action.docker_args(&pkg, v, &volumes),
        vec![
            "--mount",
            "type=bind,src=/mnt/embassy-os/app-data/foo/volumes/main,dst=/root/data",
            "--shm-size",
            "64m",
            "--entrypoint",
            "run.sh",
            "start9/foo/main:0.3.0.2",
            "--flag",
            "v",
        ]
    );
}
