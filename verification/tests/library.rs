use unbox::acquire::AcqPhase;
use unbox::acquire::CmdResult;
use unbox::acquire::EngineStep;
use unbox::acquire::get_image;
use unbox::acquire::trim_whitespace;
use unbox::create::Create;
use unbox::create::CreateError;
use unbox::create::Engine;
use unbox::create::Source;
use unbox::create::plan_create;
use unbox::create::tar_file_path;
use unbox::extract::EntryKind;
use unbox::extract::EntryMeta;
use unbox::extract::TarEntry;
use unbox::extract::unpack_order;
use unbox::current_mapping;
use unbox::root_mapping;

fn entry(path: &str, kind: EntryKind) -> TarEntry {
    TarEntry {
        path: path.as_bytes().to_vec(),
        kind,
        meta: EntryMeta { mode: 0o755, mtime: 1, uid: 0, gid: 0 },
    }
}

fn request(tar: Option<&str>, image: Option<&str>, engine: Option<Engine>) -> Create {
    Create {
        name: "box".to_string(),
        tar: tar.map(|s| s.to_string()),
        image: image.map(|s| s.to_string()),
        engine,
        shell: None,
        quiet: true,
    }
}

#[test]
fn unpack_order_defers_directories_deepest_first() {
    // a shallow directory listed last among the directories still has its
    // metadata applied after everything underneath it
    let entries = vec![
        entry("a/b/", EntryKind::Directory),
        entry("a/b/file.txt", EntryKind::RegularFile),
        entry("a/file2.txt", EntryKind::RegularFile),
        entry("a/", EntryKind::Directory),
    ];
    let order = unpack_order(&entries);
    assert_eq!(order, vec![1, 2, 0, 3]);
}

#[test]
fn unpack_order_keeps_archive_order_for_files() {
    let entries = vec![
        entry("z", EntryKind::RegularFile),
        entry("a", EntryKind::Symlink),
        entry("m", EntryKind::Hardlink),
        entry("q", EntryKind::Other),
    ];
    let order = unpack_order(&entries);
    assert_eq!(order, vec![0, 1, 2, 3]);
}

#[test]
fn unpack_order_breaks_directory_ties_by_archive_order() {
    let entries = vec![
        entry("b/", EntryKind::Directory),
        entry("a/", EntryKind::Directory),
        entry("c/", EntryKind::Directory),
    ];
    let order = unpack_order(&entries);
    assert_eq!(order, vec![0, 1, 2]);
}

#[test]
fn unpack_order_mixes_kinds() {
    let entries = vec![
        entry("etc/", EntryKind::Directory),
        entry("etc/hostname", EntryKind::RegularFile),
        entry("usr/share/", EntryKind::Directory),
        entry("usr/", EntryKind::Directory),
        entry("usr/bin", EntryKind::Symlink),
    ];
    let order = unpack_order(&entries);
    // files first in archive order, then directories by descending path
    // byte length
    assert_eq!(order, vec![1, 4, 2, 0, 3]);
}

#[test]
fn unpack_order_of_empty_archive_is_empty() {
    let entries: Vec<TarEntry> = Vec::new();
    let order = unpack_order(&entries);
    assert!(order.is_empty());
}

#[test]
fn existing_target_is_rejected_without_mutation() {
    let args = request(Some("/tmp/rootfs.tar"), None, None);
    let r = plan_create(&args, "/home/user/.local/share/unbox/box", true, 1000);
    assert_eq!(r.unwrap_err(), CreateError::TargetExists);
}

#[test]
fn missing_source_is_rejected_before_any_directory_is_created() {
    let args = request(None, None, None);
    let r = plan_create(&args, "/tmp/box", false, 1000);
    assert_eq!(r.unwrap_err(), CreateError::ConfigurationError);
}

#[test]
fn image_without_engine_is_rejected() {
    let args = request(None, Some("alpine"), None);
    let r = plan_create(&args, "/tmp/box", false, 1000);
    assert_eq!(r.unwrap_err(), CreateError::ConfigurationError);
}

#[test]
fn engine_without_image_is_rejected() {
    let args = request(None, None, Some(Engine::Podman));
    let r = plan_create(&args, "/tmp/box", false, 1000);
    assert_eq!(r.unwrap_err(), CreateError::ConfigurationError);
}

#[test]
fn local_tar_plan_lays_out_the_fixed_paths() {
    let args = request(Some("/tmp/rootfs.tar"), None, None);
    let plan = plan_create(&args, "/tmp/box", false, 1000).unwrap();
    assert_eq!(plan.target, "/tmp/box");
    match &plan.source {
        Source::LocalTar(path) => assert_eq!(path, "/tmp/rootfs.tar"),
        _ => panic!("expected a local tar source"),
    }
    assert_eq!(plan.mapping.inside, 0);
    assert_eq!(plan.mapping.outside, 1000);
    assert_eq!(plan.mapping.len, 1);
    assert_eq!(
        plan.placeholder_dirs,
        vec!["/tmp/box/host", "/tmp/box/proc", "/tmp/box/sys", "/tmp/box/dev"]
    );
    assert_eq!(plan.resolv_conf, "/tmp/box/etc/resolv.conf");
}

#[test]
fn a_supplied_tar_wins_over_an_image() {
    let args = request(Some("/tmp/rootfs.tar"), Some("alpine"), Some(Engine::Docker));
    let plan = plan_create(&args, "/tmp/box", false, 1000).unwrap();
    assert!(matches!(plan.source, Source::LocalTar(_)));
}

#[test]
fn image_plan_records_reference_and_engine() {
    let args = request(None, Some("docker.io/library/alpine"), Some(Engine::Docker));
    let plan = plan_create(&args, "/tmp/box", false, 1000).unwrap();
    match &plan.source {
        Source::OciImage { reference, engine } => {
            assert_eq!(reference, "docker.io/library/alpine");
            assert_eq!(*engine, Engine::Docker);
        }
        _ => panic!("expected an image source"),
    }
}

#[test]
fn tar_file_path_names_the_toolbox() {
    assert_eq!(tar_file_path("box"), "/tmp/unbox-box-image.tar");
}

#[test]
fn engine_binaries() {
    assert_eq!(Engine::Docker.binary(), "docker");
    assert_eq!(Engine::Podman.binary(), "podman");
}

#[test]
fn root_mapping_presents_the_caller_as_root() {
    let m = root_mapping(4242);
    assert_eq!(m.inside, 0);
    assert_eq!(m.outside, 4242);
    assert_eq!(m.len, 1);
}

#[test]
fn current_mapping_maps_one_id_to_root() {
    let m = current_mapping();
    assert_eq!(m.inside, 0);
    assert_eq!(m.len, 1);
}

#[test]
fn trim_whitespace_strips_both_ends() {
    assert_eq!(trim_whitespace("  abc123\n"), "abc123");
    assert_eq!(trim_whitespace("\t a b \r\n"), "a b");
    assert_eq!(trim_whitespace("plain"), "plain");
    assert_eq!(trim_whitespace(" \n\t\r "), "");
    assert_eq!(trim_whitespace(""), "");
}

fn words(inv: &unbox::acquire::Invocation) -> Vec<String> {
    let mut w = vec![inv.program.clone()];
    w.extend(inv.args.iter().cloned());
    w
}

#[test]
fn engine_protocol_runs_create_export_rm_in_order() {
    let mut acq = get_image(
        Engine::Podman,
        "alpine".to_string(),
        "/tmp/unbox-box-image.tar".to_string(),
    );

    let c1 = acq.next_command().unwrap();
    assert_eq!(words(&c1), vec!["podman", "create", "alpine"]);
    acq.advance(CmdResult { success: true, stdout: "  deadbeef\n".to_string() });

    // the container id is create's output, trimmed, passed verbatim
    let c2 = acq.next_command().unwrap();
    assert_eq!(
        words(&c2),
        vec!["podman", "export", "deadbeef", "--output", "/tmp/unbox-box-image.tar"]
    );
    acq.advance(CmdResult { success: true, stdout: String::new() });

    let c3 = acq.next_command().unwrap();
    assert_eq!(words(&c3), vec!["podman", "rm", "deadbeef"]);
    acq.advance(CmdResult { success: true, stdout: String::new() });

    assert!(matches!(acq.phase, AcqPhase::Done));
    assert!(acq.next_command().is_none());
    assert!(acq.error().is_none());
}

#[test]
fn failed_export_never_invokes_rm() {
    let mut acq = get_image(Engine::Docker, "alpine".to_string(), "/tmp/a.tar".to_string());
    assert_eq!(words(&acq.next_command().unwrap()), vec!["docker", "create", "alpine"]);
    acq.advance(CmdResult { success: true, stdout: "cafe\n".to_string() });
    assert_eq!(
        words(&acq.next_command().unwrap()),
        vec!["docker", "export", "cafe", "--output", "/tmp/a.tar"]
    );
    acq.advance(CmdResult { success: false, stdout: String::new() });
    assert!(matches!(acq.phase, AcqPhase::Failed { step: EngineStep::Export }));
    assert!(acq.next_command().is_none());
    assert_eq!(acq.error(), Some(CreateError::EngineError));
}

#[test]
fn failed_create_stops_the_run() {
    let mut acq = get_image(Engine::Docker, "alpine".to_string(), "/tmp/a.tar".to_string());
    acq.advance(CmdResult { success: false, stdout: String::new() });
    assert!(matches!(acq.phase, AcqPhase::Failed { step: EngineStep::Create }));
    assert!(acq.next_command().is_none());
}

#[test]
fn whitespace_only_create_output_is_no_container_id() {
    let mut acq = get_image(Engine::Podman, "alpine".to_string(), "/tmp/a.tar".to_string());
    acq.advance(CmdResult { success: true, stdout: " \n".to_string() });
    assert!(matches!(acq.phase, AcqPhase::Failed { step: EngineStep::Create }));
    assert!(acq.next_command().is_none());
}
