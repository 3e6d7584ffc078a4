//! Archives that ship with the application.

use execlaw_server::bundled_plugins::{
    check_bundled_name, list_bundled, mirror_action, resolve_source_dir, source_candidates, tally,
    BundledFile, InstallAsk, InstallBundledQuery, InstallResponse, InstallStage, InstallTurn,
    ManifestFields, MirrorAction, ProvenanceFault, ShippedFile,
};

fn query(file: &str, if_existing: Option<&str>) -> InstallBundledQuery {
    InstallBundledQuery { file: file.to_owned(), if_existing: if_existing.map(str::to_owned) }
}

#[test]
fn install_bundled_query_rejects_path_traversal() {
    let traversal = InstallBundledQuery { file: "../etc/passwd.zip".into(), if_existing: None };
    assert!(traversal.file.contains(".."));
    let path_sep = InstallBundledQuery { file: "subdir/x.zip".into(), if_existing: None };
    assert!(path_sep.file.contains('/'));
    for bad in [traversal, path_sep, query("a\\b.zip", None)] {
        let (turn, step) = InstallTurn::begin(bad);
        assert_eq!(turn.stage, InstallStage::Ended);
        match step.ask {
            InstallAsk::Refuse(e) => {
                assert_eq!(e.status, 400);
                assert_eq!(e.code, "bad_filename");
                assert_eq!(e.message, "file must be a bare filename inside bundled-plugins/");
            }
            other => panic!("expected a refusal, got {other:?}"),
        }
    }
}

#[test]
fn mirror_skips_when_no_source_dir() {
    // No override and no bundle: there is nowhere to look, so nothing is mirrored.
    let candidates = source_candidates(None, None);
    assert!(candidates.is_empty());
    assert_eq!(resolve_source_dir(&candidates, &vec![]), None);
    let done = tally(&vec![]);
    assert_eq!((done.mirrored, done.skipped), (0, 0));
}

#[test]
fn the_override_comes_before_the_bundle() {
    let candidates = source_candidates(Some("/dev/dist".to_owned()), Some("/App/Contents"));
    assert_eq!(
        candidates,
        vec![
            "/dev/dist".to_owned(),
            "/App/Contents/Resources/resources/plugins".to_owned(),
            "/App/Contents/Resources/plugins".to_owned(),
        ]
    );
    assert_eq!(
        resolve_source_dir(&candidates, &vec![false, false, true]).as_deref(),
        Some("/App/Contents/Resources/plugins")
    );
    assert_eq!(
        resolve_source_dir(&candidates, &vec![true, true, true]).as_deref(),
        Some("/dev/dist")
    );
    assert_eq!(resolve_source_dir(&candidates, &vec![false, false, false]), None);
}

fn shipped(name: &str, size: Option<u64>, copy: Option<Option<u64>>) -> ShippedFile {
    ShippedFile {
        name: name.to_owned(),
        size,
        copy_exists: copy.is_some(),
        copy_size: copy.flatten(),
    }
}

#[test]
fn the_mirror_copies_what_is_missing_or_of_another_size() {
    assert_eq!(mirror_action(&shipped("a.zip", Some(3), None)), MirrorAction::Copy);
    assert_eq!(mirror_action(&shipped("a.zip", Some(3), Some(Some(3)))), MirrorAction::Skip);
    assert_eq!(mirror_action(&shipped("a.zip", Some(3), Some(Some(4)))), MirrorAction::Copy);
    assert_eq!(mirror_action(&shipped("a.zip", None, Some(None))), MirrorAction::Copy);
    assert_eq!(mirror_action(&shipped("readme.md", Some(3), None)), MirrorAction::Ignore);
    for ending in [".provenance.json", ".sigstore.json", ".cdx.json", ".spdx.json"] {
        let name = format!("a.zip{ending}");
        assert_eq!(mirror_action(&shipped(&name, Some(3), None)), MirrorAction::Copy);
    }
    let done = tally(&vec![
        (MirrorAction::Copy, true),
        (MirrorAction::Copy, false),
        (MirrorAction::Skip, true),
        (MirrorAction::Ignore, true),
    ]);
    assert_eq!((done.mirrored, done.skipped), (1, 1));
}

fn archive(name: &str, id: Option<&str>, description: Option<&str>) -> BundledFile {
    BundledFile {
        name: name.to_owned(),
        size: Some(10),
        manifest: id.map(|id| ManifestFields {
            id: id.to_owned(),
            version: "1.0".to_owned(),
            description: description.map(str::to_owned),
        }),
    }
}

#[test]
fn the_list_is_by_name_and_flags_what_is_installed() {
    let listed = list_bundled(
        vec![
            archive("signal.zip", Some("signal"), Some("  Signal  ")),
            archive("notes.txt", None, None),
            archive("broken.zip", None, None),
            archive(".zip", None, None),
            archive("chart.zip", Some("chart"), Some("   ")),
        ],
        &vec!["signal".to_owned()],
    );
    let names: Vec<&str> = listed.plugins.iter().map(|p| p.file.as_str()).collect();
    assert_eq!(names, vec!["broken.zip", "chart.zip", "signal.zip"]);
    assert_eq!(listed.plugins[0].plugin_id, None);
    assert!(!listed.plugins[0].already_installed);
    assert_eq!(listed.plugins[1].description, None);
    assert!(!listed.plugins[1].already_installed);
    assert_eq!(listed.plugins[2].description.as_deref(), Some("Signal"));
    assert_eq!(listed.plugins[2].version.as_deref(), Some("1.0"));
    assert_eq!(listed.plugins[2].size_bytes, 10);
    assert!(listed.plugins[2].already_installed);
}

/// Drives an installation as far as the look at the plugin's directory.
fn inspecting(if_existing: Option<&str>) -> InstallTurn {
    let (mut turn, step) = InstallTurn::begin(query("chart.zip", if_existing));
    match step.ask {
        InstallAsk::Locate { file } => assert_eq!(file, "chart.zip"),
        other => panic!("unexpected {other:?}"),
    }
    let step = turn.on_located(true, "/d/chart.zip".to_owned());
    assert!(matches!(step.ask, InstallAsk::ReadArchive));
    let step = turn.on_read(Ok(()));
    assert!(matches!(step.ask, InstallAsk::Stage));
    let step = turn.on_staged(Ok(("chart".to_owned(), "1.0".to_owned())));
    match step.ask {
        InstallAsk::ReadProvenance { file } => assert_eq!(file, "chart.zip.provenance.json"),
        other => panic!("unexpected {other:?}"),
    }
    let step = turn.on_provenance(Ok("spdx".to_owned()));
    match step.ask {
        InstallAsk::Inspect { signature, sbom, directory } => {
            assert_eq!(signature, "chart.zip.sigstore.json");
            assert_eq!(sbom, "chart.zip.spdx.json");
            assert_eq!(directory, "chart-1.0");
        }
        other => panic!("unexpected {other:?}"),
    }
    turn
}

fn refusal(ask: InstallAsk) -> (u16, String, String) {
    match ask {
        InstallAsk::Refuse(e) => (e.status, e.code, e.message),
        other => panic!("expected a refusal, got {other:?}"),
    }
}

#[test]
fn a_verified_archive_is_installed() {
    let mut turn = inspecting(None);
    assert!(matches!(turn.on_inspected(false, "/s", false).ask, InstallAsk::MakeParent));
    assert!(matches!(turn.on_parent(Ok(())).ask, InstallAsk::Move));
    assert!(matches!(turn.on_moved(Ok(())).ask, InstallAsk::Authorize));
    assert!(matches!(turn.on_authorized(Ok(()), false).ask, InstallAsk::Install));
    let done = InstallResponse { plugin_id: "chart".to_owned(), version: "1.0".to_owned() };
    let step = turn.on_installed(Ok(done));
    assert!(!step.discard);
    match step.ask {
        InstallAsk::Done(r) => assert_eq!(r.plugin_id, "chart"),
        other => panic!("unexpected {other:?}"),
    }
}

#[test]
fn an_upgrade_clears_the_directory_and_falls_back_to_an_install() {
    let mut turn = inspecting(Some("upgrade"));
    assert!(matches!(turn.on_inspected(true, "/s", true).ask, InstallAsk::Clear));
    assert!(matches!(turn.on_cleared(Ok(())).ask, InstallAsk::MakeParent));
    assert!(matches!(turn.on_parent(Ok(())).ask, InstallAsk::Move));
    assert!(matches!(turn.on_moved(Ok(())).ask, InstallAsk::Authorize));
    assert!(matches!(turn.on_authorized(Ok(()), true).ask, InstallAsk::Upgrade));

    let mut fresh = inspecting(Some("upgrade"));
    fresh.on_inspected(false, "/s", false);
    fresh.on_parent(Ok(()));
    fresh.on_moved(Ok(()));
    assert!(matches!(fresh.on_authorized(Ok(()), false).ask, InstallAsk::Install));
}

#[test]
fn an_unverified_archive_is_discarded() {
    let mut turn = inspecting(None);
    turn.on_inspected(false, "/s", false);
    turn.on_parent(Ok(()));
    turn.on_moved(Ok(()));
    let step = turn.on_authorized(Err("bad signature".to_owned()), false);
    assert!(step.discard);
    assert_eq!(
        refusal(step.ask),
        (403, "provenance_verification_failed".to_owned(), "bad signature".to_owned())
    );
}

#[test]
fn every_fault_of_an_installation_has_its_answer() {
    assert!(check_bundled_name("chart.zip").is_ok());
    assert_eq!(check_bundled_name("chart.tar").unwrap_err().message, "file must end in .zip");

    let (mut turn, _) = InstallTurn::begin(query("chart.zip", None));
    assert_eq!(
        refusal(turn.on_located(false, "/d/chart.zip".to_owned()).ask),
        (404, "not_found".to_owned(), "no bundled plugin at /d/chart.zip".to_owned())
    );

    let (mut turn, _) = InstallTurn::begin(query("chart.zip", None));
    turn.on_located(true, "/d/chart.zip".to_owned());
    assert_eq!(
        refusal(turn.on_read(Err("denied".to_owned())).ask),
        (500, "read_failed".to_owned(), "read /d/chart.zip: denied".to_owned())
    );

    let (mut turn, _) = InstallTurn::begin(query("chart.zip", None));
    turn.on_located(true, "/d/chart.zip".to_owned());
    turn.on_read(Ok(()));
    assert_eq!(
        refusal(turn.on_staged(Err("no manifest".to_owned())).ask),
        (400, "stage_failed".to_owned(), "stage failed: no manifest".to_owned())
    );

    let (mut turn, _) = InstallTurn::begin(query("chart.zip", None));
    turn.on_located(true, "/d/chart.zip".to_owned());
    turn.on_read(Ok(()));
    turn.on_staged(Ok(("chart".to_owned(), "1.0".to_owned())));
    let missing = ProvenanceFault::Missing { path: "/d/p".to_owned(), cause: "gone".to_owned() };
    assert_eq!(
        refusal(turn.on_provenance(Err(missing)).ask),
        (
            403,
            "provenance_required".to_owned(),
            "missing detached provenance /d/p: gone".to_owned()
        )
    );

    let (mut turn, _) = InstallTurn::begin(query("chart.zip", None));
    turn.on_located(true, "/d/chart.zip".to_owned());
    turn.on_read(Ok(()));
    turn.on_staged(Ok(("chart".to_owned(), "1.0".to_owned())));
    assert_eq!(
        refusal(turn.on_provenance(Err(ProvenanceFault::Invalid("eof".to_owned()))).ask),
        (400, "invalid_provenance".to_owned(), "eof".to_owned())
    );

    assert_eq!(
        refusal(inspecting(None).on_inspected(true, "/s", false).ask),
        (
            409,
            "already_staged".to_owned(),
            "a staged dir already exists at /s; pass if_existing=upgrade to replace it".to_owned()
        )
    );
    assert_eq!(
        refusal(inspecting(Some("reject")).on_inspected(false, "/s", true).ask),
        (
            409,
            "already_installed".to_owned(),
            "Plugin already installed (use if_existing=upgrade)".to_owned()
        )
    );

    let mut turn = inspecting(Some("upgrade"));
    turn.on_inspected(true, "/s", true);
    assert_eq!(
        refusal(turn.on_cleared(Err("busy".to_owned())).ask),
        (500, "stage_clear".to_owned(), "could not clear existing stage dir: busy".to_owned())
    );

    let mut turn = inspecting(None);
    turn.on_inspected(false, "/s", false);
    assert_eq!(
        refusal(turn.on_parent(Err("full".to_owned())).ask),
        (500, "stage_mkdir".to_owned(), "mkdir: full".to_owned())
    );

    let mut turn = inspecting(None);
    turn.on_inspected(false, "/s", false);
    turn.on_parent(Ok(()));
    assert_eq!(
        refusal(turn.on_moved(Err(("xdev".to_owned(), "full".to_owned()))).ask),
        (500, "stage_move".to_owned(), "rename+copy failed: xdev / full".to_owned())
    );

    let mut turn = inspecting(None);
    turn.on_inspected(false, "/s", false);
    turn.on_parent(Ok(()));
    turn.on_moved(Ok(()));
    turn.on_authorized(Ok(()), false);
    let step = turn.on_installed(Err("no slot".to_owned()));
    assert!(step.discard);
    assert_eq!(refusal(step.ask), (500, "install_failed".to_owned(), "no slot".to_owned()));
}
