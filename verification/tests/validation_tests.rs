use std::cell::RefCell;
use std::io::Write;

use flathub_hooks::config::{BackendError, Config, ValidateArgs, ValidateConfig};
use flathub_hooks::diagnostics::{CheckResult, DiagnosticInfo, ValidationDiagnostic};
use flathub_hooks::job_utils::{Build, BuildExtended, CheckStatus};
use flathub_hooks::moderation::{ReviewRequest, ReviewRequestResponse};
use flathub_hooks::review::{do_review, do_validation, review_outcome};
use flathub_hooks::review_files::{review_files, ScannedFile};
use flathub_hooks::storefront::StorefrontInfo;
use flathub_hooks::utils::{app_id_from_ref, arch_from_ref, get_appstream_path, is_primary_ref};
use flathub_hooks::validation::{
    validate_appstream_catalog_file, validate_metainfo_file, FileRead, LinterOutput,
    MetainfoCheck, RefInput,
};

#[test]
fn test_app_id_from_refstring() {
    assert_eq!(
        app_id_from_ref("app/org.gnome.Builder/x86_64/stable"),
        "org.gnome.Builder"
    );
    assert_eq!(
        app_id_from_ref("runtime/org.gnome.Builder.Sources/x86_64/stable"),
        "org.gnome.Builder"
    );
    assert_eq!(
        app_id_from_ref("runtime/org.gnome.Builder.Debug/x86_64/stable"),
        "org.gnome.Builder"
    );
    assert_eq!(
        app_id_from_ref("runtime/org.gnome.Builder.Locale/x86_64/stable"),
        "org.gnome.Builder"
    );
    assert_eq!(
        app_id_from_ref("runtime/org.gnome.Platform/x86_64/3.38"),
        "org.gnome.Platform"
    );
}

#[test]
fn test_is_primary_ref() {
    assert!(is_primary_ref("app/org.gnome.Builder/x86_64/stable"));
    assert!(!is_primary_ref("runtime/org.gnome.Platform/x86_64/3.38"));
    assert!(!is_primary_ref(
        "runtime/org.gnome.Builder.Sources/x86_64/stable"
    ));
}

#[test]
fn test_is_primary_ref_skiplist() {
    assert!(!is_primary_ref("app/org.mozilla.firefox/x86_64/stable"));
    assert!(!is_primary_ref("app/net.pcsx2.PCSX2/x86_64/stable"));
    assert!(is_primary_ref("app/org.mozilla.Thunderbird.Clone/x86_64/stable"));
}

#[test]
fn test_arch_and_path_helpers() {
    assert_eq!(arch_from_ref("app/org.gnome.Builder/x86_64/stable"), "x86_64");
    assert_eq!(arch_from_ref("app/org.gnome.Builder/aarch64/stable"), "aarch64");
    assert_eq!(
        get_appstream_path("org.gnome.Builder"),
        "files/share/app-info/xmls/org.gnome.Builder.xml.gz"
    );
}

/// A minimal 64-bit little-endian executable header with the given machine
/// code.
fn elf_with_machine(machine: u16) -> Vec<u8> {
    let mut b = vec![0u8; 64];
    b[0] = 0x7f;
    b[1] = b'E';
    b[2] = b'L';
    b[3] = b'F';
    b[4] = 2; // 64-bit
    b[5] = 1; // little endian
    b[6] = 1; // current version
    b[16] = 2; // executable
    b[18] = (machine & 0xff) as u8;
    b[19] = (machine >> 8) as u8;
    b[20] = 1; // e_version
    b
}

#[test]
fn test_wrong_arch_executable() {
    let files = vec![
        ScannedFile {
            path: "files/bin/native".to_string(),
            data: elf_with_machine(62), // x86-64, accepted
        },
        ScannedFile {
            path: "files/bin/foreign".to_string(),
            data: elf_with_machine(183), // aarch64 under an x86_64 ref
        },
        ScannedFile {
            path: "files/bin/script".to_string(),
            data: b"#!/bin/sh\n".to_vec(), // not an executable header: skipped
        },
    ];
    let diag = review_files(&files, "app/org.test.App/x86_64/stable").unwrap();
    assert!(diag.is_warning);
    match &diag.info {
        DiagnosticInfo::WrongArchExecutables { executables } => {
            assert_eq!(executables.len(), 1);
            assert_eq!(executables[0].path, "files/bin/foreign");
            assert_eq!(executables[0].detected_arch_code, 183);
            assert_eq!(executables[0].detected_arch, "EM_AARCH64");
        }
        other => panic!("unexpected diagnostic: {:?}", other),
    }

    // everything matching: no diagnostic at all
    let ok_files = vec![ScannedFile {
        path: "files/bin/native".to_string(),
        data: elf_with_machine(62),
    }];
    assert!(review_files(&ok_files, "app/org.test.App/x86_64/stable").is_none());
    // legacy 32-bit x86 is accepted under x86_64
    let legacy = vec![ScannedFile {
        path: "files/bin/old".to_string(),
        data: elf_with_machine(3),
    }];
    assert!(review_files(&legacy, "app/org.test.App/x86_64/stable").is_none());
}

fn gz(text: &str) -> Vec<u8> {
    let mut enc = flate2::write::GzEncoder::new(Vec::new(), flate2::Compression::default());
    enc.write_all(text.as_bytes()).unwrap();
    enc.finish().unwrap()
}

fn catalog_for(app_id: &str, extra: &str) -> FileRead {
    let text = format!(
        r#"<?xml version="1.0" encoding="utf-8"?>
<components>
    <component>
        <id>{app_id}</id>
        {extra}
    </component>
</components>"#
    );
    FileRead::Content { bytes: gz(&text) }
}

fn ref_input(refstring: &str, catalog: FileRead, has_local_icon: bool) -> RefInput {
    RefInput {
        refstring: refstring.to_string(),
        catalog,
        metainfo: vec![],
        has_local_icon,
        linter: LinterOutput {
            success: true,
            stdout: String::new(),
            stderr: String::new(),
        },
        screenshots_branch: None,
        executables: vec![],
    }
}

#[test]
fn test_end_to_end_missing_icon_fails_build() {
    // one primary ref without any icon, one healthy ref with a local icon
    // and a correctly mirrored screenshot, one non-primary ref
    let bad = ref_input(
        "app/org.test.NoIcon/x86_64/stable",
        catalog_for("org.test.NoIcon", ""),
        false,
    );
    let mut good = ref_input(
        "app/org.test.Good/x86_64/stable",
        catalog_for(
            "org.test.Good",
            r#"<screenshots>
            <screenshot>
                <image type="source">https://example.com/shot.png</image>
                <image type="thumbnail">https://dl.flathub.org/media/org.test.Good/shot.png</image>
            </screenshot>
        </screenshots>"#,
        ),
        true,
    );
    good.screenshots_branch = Some(vec!["org.test.Good/shot.png".to_string()]);
    let runtime = ref_input(
        "runtime/org.test.Platform/x86_64/1",
        FileRead::Missing,
        false,
    );

    let refs = vec![bad, good, runtime];
    let (result, _build) = do_validation(&ValidateArgs {}, &refs).unwrap();

    assert_eq!(result.diagnostics.len(), 1);
    let d = &result.diagnostics[0];
    assert!(!d.is_warning);
    assert_eq!(d.refstring.as_deref(), Some("app/org.test.NoIcon/x86_64/stable"));
    assert!(matches!(d.info, DiagnosticInfo::MissingIcon));

    assert!(result.has_blocking_failure());
    let status = review_outcome(result.has_blocking_failure(), false, false);
    assert!(matches!(status, CheckStatus::Failed(_)));
}

#[test]
fn test_icon_policy_warning_for_remote_icon() {
    let input = ref_input(
        "app/org.test.Remote/x86_64/stable",
        catalog_for("org.test.Remote", "<icon type=\"remote\">https://example.com/i.png</icon>"),
        false,
    );
    let refs = vec![input];
    let (result, _build) = do_validation(&ValidateArgs {}, &refs).unwrap();
    assert_eq!(result.diagnostics.len(), 1);
    assert!(result.diagnostics[0].is_warning);
    assert!(matches!(result.diagnostics[0].info, DiagnosticInfo::NoLocalIcon));
    assert!(!result.has_blocking_failure());
}

#[test]
fn test_screenshot_mirroring_failures() {
    // an unmirrored thumbnail and a mirrored one whose file is absent
    let mut input = ref_input(
        "app/org.test.Shots/x86_64/stable",
        catalog_for(
            "org.test.Shots",
            r#"<screenshots>
            <screenshot>
                <image type="thumbnail">https://elsewhere.example.com/a.png</image>
                <image type="thumbnail">https://dl.flathub.org/media/org.test.Shots/missing.png</image>
            </screenshot>
            <screenshot>
                <image type="source">https://example.com/src.png</image>
            </screenshot>
        </screenshots>"#,
        ),
        true,
    );
    input.screenshots_branch = Some(vec!["org.test.Shots/present.png".to_string()]);
    let refs = vec![input];
    let (result, _build) = do_validation(&ValidateArgs {}, &refs).unwrap();

    assert_eq!(result.diagnostics.len(), 3);
    assert!(matches!(
        &result.diagnostics[0].info,
        DiagnosticInfo::ScreenshotNotMirrored { url } if url == "https://elsewhere.example.com/a.png"
    ));
    assert!(matches!(
        &result.diagnostics[1].info,
        DiagnosticInfo::MirroredScreenshotNotFound { url }
            if url == "https://dl.flathub.org/media/org.test.Shots/missing.png"
    ));
    // the screenshot without thumbnails records its source as unmirrored
    assert!(matches!(
        &result.diagnostics[2].info,
        DiagnosticInfo::ScreenshotNotMirrored { url } if url == "https://example.com/src.png"
    ));
}

#[test]
fn test_component_id_mismatch() {
    let input = ref_input(
        "app/org.test.Right/x86_64/stable",
        catalog_for("org.test.Wrong", ""),
        true,
    );
    let refs = vec![input];
    let (result, _build) = do_validation(&ValidateArgs {}, &refs).unwrap();
    assert_eq!(result.diagnostics.len(), 1);
    assert!(matches!(
        &result.diagnostics[0].info,
        DiagnosticInfo::FailedToLoadAppstream { error, .. }
            if error.contains("does not match expected ID (org.test.Right)")
    ));
}

#[test]
fn test_component_id_desktop_suffix_accepted() {
    let input = ref_input(
        "app/org.test.App/x86_64/stable",
        catalog_for("org.test.App.desktop", ""),
        true,
    );
    let refs = vec![input];
    let (result, _build) = do_validation(&ValidateArgs {}, &refs).unwrap();
    assert!(result.diagnostics.is_empty());
}

#[test]
fn test_linter_failure_is_blocking() {
    let mut input = ref_input(
        "app/org.test.App/x86_64/stable",
        catalog_for("org.test.App", ""),
        true,
    );
    input.linter = LinterOutput {
        success: false,
        stdout: "{\"errors\": []}".to_string(),
        stderr: "lint failed".to_string(),
    };
    let refs = vec![input];
    let (result, _build) = do_validation(&ValidateArgs {}, &refs).unwrap();
    assert_eq!(result.diagnostics.len(), 1);
    assert!(matches!(
        &result.diagnostics[0].info,
        DiagnosticInfo::FlatpakBuilderLint { stderr, .. } if stderr == "lint failed"
    ));
    assert!(result.has_blocking_failure());
}

struct FreeSoftwareConfig {}

impl ValidateConfig for FreeSoftwareConfig {
    fn get_is_free_software(&self, _app_id: &str, _license: Option<&str>) -> Result<bool, BackendError> {
        Ok(true)
    }

    fn get_build(&self) -> Result<BuildExtended, BackendError> {
        Ok(BuildExtended {
            build: Build {
                app_id: None,
                repo: String::new(),
                build_log_url: None,
            },
            build_refs: vec![],
        })
    }
}

#[test]
fn test_build_log_policy_for_free_software() {
    let config = FreeSoftwareConfig {};
    // no URL anywhere: an error
    let build = config.get_build().unwrap();
    let ds = validate_appstream_catalog_file(
        &config,
        &build,
        &catalog_for("org.test.App", "<project_license>GPL-3.0</project_license>"),
        true,
        &None,
        "app/org.test.App/x86_64/stable",
    )
    .unwrap();
    assert_eq!(ds.len(), 1);
    assert!(matches!(ds[0].info, DiagnosticInfo::MissingBuildLogUrl));

    // a valid build-wide URL satisfies the policy
    let build = BuildExtended {
        build: Build {
            app_id: None,
            repo: String::new(),
            build_log_url: Some("https://example.com/log/1".to_string()),
        },
        build_refs: vec![],
    };
    let ds = validate_appstream_catalog_file(
        &config,
        &build,
        &catalog_for("org.test.App", ""),
        true,
        &None,
        "app/org.test.App/x86_64/stable",
    )
    .unwrap();
    assert!(ds.is_empty());

    // an invalid URL does not
    let build = BuildExtended {
        build: Build {
            app_id: None,
            repo: String::new(),
            build_log_url: Some("not a url".to_string()),
        },
        build_refs: vec![],
    };
    let ds = validate_appstream_catalog_file(
        &config,
        &build,
        &catalog_for("org.test.App", ""),
        true,
        &None,
        "app/org.test.App/x86_64/stable",
    )
    .unwrap();
    assert_eq!(ds.len(), 1);
    assert!(matches!(ds[0].info, DiagnosticInfo::MissingBuildLogUrl));
}

struct MockConfig {
    requires_review: bool,
    email_fails: bool,
    statuses: RefCell<Vec<CheckStatus>>,
    submitted_item_counts: RefCell<Vec<usize>>,
}

impl ValidateConfig for MockConfig {
    fn get_is_free_software(&self, _app_id: &str, _license: Option<&str>) -> Result<bool, BackendError> {
        Ok(false)
    }

    fn get_build(&self) -> Result<BuildExtended, BackendError> {
        Ok(BuildExtended {
            build: Build {
                app_id: None,
                repo: String::new(),
                build_log_url: None,
            },
            build_refs: vec![],
        })
    }
}

impl Config for MockConfig {
    fn get_build_id(&self) -> Result<i64, BackendError> {
        Ok(7)
    }

    fn get_job_id(&self) -> Result<i64, BackendError> {
        Ok(9)
    }

    fn get_is_republish(&self) -> Result<bool, BackendError> {
        Ok(false)
    }

    fn validation_observe_only(&self) -> bool {
        false
    }

    fn get_storefront_info(&self, _app_id: &str) -> Result<StorefrontInfo, BackendError> {
        Ok(StorefrontInfo {
            verification: None,
            pricing: None,
            is_free_software: None,
        })
    }

    fn set_check_status(&self, new_status: &CheckStatus, _result: &CheckResult) -> Result<(), BackendError> {
        self.statuses.borrow_mut().push(new_status.clone());
        Ok(())
    }

    fn post_review_request(&self, request: &ReviewRequest) -> Result<ReviewRequestResponse, BackendError> {
        self.submitted_item_counts.borrow_mut().push(request.items.len());
        Ok(ReviewRequestResponse {
            requires_review: self.requires_review,
        })
    }

    fn post_email_notification(&self, _result: &CheckResult) -> Result<(), BackendError> {
        if self.email_fails {
            Err(BackendError {
                message: "email endpoint unreachable".to_string(),
            })
        } else {
            Ok(())
        }
    }
}

#[test]
fn test_review_outcome_statuses() {
    assert!(matches!(review_outcome(false, false, false), CheckStatus::Pending));
    assert!(matches!(
        review_outcome(false, false, true),
        CheckStatus::ReviewRequired(m)
            if m == "Some of the changes in this build require review by a moderator."
    ));
    assert!(matches!(
        review_outcome(true, false, false),
        CheckStatus::Failed(m) if m == "One or more validations failed."
    ));
    assert!(matches!(
        review_outcome(true, true, false),
        CheckStatus::PassedWithWarnings(m) if m == "One or more validations failed."
    ));
}

#[test]
fn test_do_review_passes_to_pending() {
    let config = MockConfig {
        requires_review: false,
        email_fails: false,
        statuses: RefCell::new(vec![]),
        submitted_item_counts: RefCell::new(vec![]),
    };
    let mut result = CheckResult { diagnostics: vec![] };
    let status = do_review(&config, &mut result, &vec![]).unwrap();
    assert_eq!(status, CheckStatus::Pending);
    assert_eq!(*config.statuses.borrow(), vec![CheckStatus::Pending]);
}

#[test]
fn test_do_review_requires_review() {
    let config = MockConfig {
        requires_review: true,
        email_fails: false,
        statuses: RefCell::new(vec![]),
        submitted_item_counts: RefCell::new(vec![]),
    };
    let mut result = CheckResult { diagnostics: vec![] };
    let status = do_review(&config, &mut result, &vec![]).unwrap();
    assert_eq!(
        status,
        CheckStatus::ReviewRequired(
            "Some of the changes in this build require review by a moderator.".to_string()
        )
    );
    assert_eq!(*config.statuses.borrow(), vec![status]);
}

#[test]
fn test_do_review_blocks_on_failure() {
    let config = MockConfig {
        requires_review: true,
        email_fails: false,
        statuses: RefCell::new(vec![]),
        submitted_item_counts: RefCell::new(vec![]),
    };
    let mut result = CheckResult {
        diagnostics: vec![ValidationDiagnostic::new(
            DiagnosticInfo::MissingIcon,
            Some("app/org.test.App/x86_64/stable".to_string()),
        )],
    };
    let status = do_review(&config, &mut result, &vec![]).unwrap();
    assert_eq!(
        status,
        CheckStatus::Failed("One or more validations failed.".to_string())
    );
    assert_eq!(*config.statuses.borrow(), vec![status]);
}

#[test]
fn test_warnings_do_not_block() {
    let config = MockConfig {
        requires_review: false,
        email_fails: false,
        statuses: RefCell::new(vec![]),
        submitted_item_counts: RefCell::new(vec![]),
    };
    let mut result = CheckResult {
        diagnostics: vec![ValidationDiagnostic::new_warning(
            DiagnosticInfo::NoLocalIcon,
            Some("app/org.test.App/x86_64/stable".to_string()),
        )],
    };
    assert!(!result.has_blocking_failure());
    let status = do_review(&config, &mut result, &vec![]).unwrap();
    assert_eq!(status, CheckStatus::Pending);
    assert_eq!(*config.statuses.borrow(), vec![CheckStatus::Pending]);
}

#[test]
fn test_email_failure_does_not_mask_status() {
    // the notification email is best-effort: its failure changes neither
    // the reported status nor the returned result
    let config = MockConfig {
        requires_review: false,
        email_fails: true,
        statuses: RefCell::new(vec![]),
        submitted_item_counts: RefCell::new(vec![]),
    };
    let mut result = CheckResult {
        diagnostics: vec![ValidationDiagnostic::new(
            DiagnosticInfo::MissingIcon,
            Some("app/org.test.App/x86_64/stable".to_string()),
        )],
    };
    let status = do_review(&config, &mut result, &vec![]).unwrap();
    assert_eq!(
        status,
        CheckStatus::Failed("One or more validations failed.".to_string())
    );
    assert_eq!(*config.statuses.borrow(), vec![status]);
}

#[test]
fn test_metainfo_checks() {
    let refstring = "app/org.test.App/x86_64/stable";

    // an absent location is simply skipped
    let absent = MetainfoCheck {
        path: "files/share/metainfo/org.test.App.metainfo.xml".to_string(),
        read: FileRead::Missing,
        linter: None,
    };
    assert!(validate_metainfo_file(&absent, refstring).is_empty());

    // bytes that are not UTF-8 are a load failure
    let binary = MetainfoCheck {
        path: "files/share/metainfo/org.test.App.metainfo.xml".to_string(),
        read: FileRead::Content {
            bytes: vec![0xff, 0xfe, 0x00],
        },
        linter: None,
    };
    let ds = validate_metainfo_file(&binary, refstring);
    assert_eq!(ds.len(), 1);
    assert!(matches!(
        &ds[0].info,
        DiagnosticInfo::FailedToLoadAppstream { error, .. } if error == "file is not valid UTF-8"
    ));

    // a present file with the wrong component id is rejected
    let wrong_id = MetainfoCheck {
        path: "files/share/metainfo/org.test.App.metainfo.xml".to_string(),
        read: FileRead::Content {
            bytes: b"<component><id>org.other.App</id></component>".to_vec(),
        },
        linter: None,
    };
    let ds = validate_metainfo_file(&wrong_id, refstring);
    assert_eq!(ds.len(), 1);
    assert!(!ds[0].is_warning);

    // a well-formed file with the right id passes, and a failed validator
    // verdict for it is carried verbatim
    let good = MetainfoCheck {
        path: "files/share/metainfo/org.test.App.metainfo.xml".to_string(),
        read: FileRead::Content {
            bytes: b"<component><id>org.test.App</id></component>".to_vec(),
        },
        linter: Some(LinterOutput {
            success: false,
            stdout: "bad".to_string(),
            stderr: String::new(),
        }),
    };
    let ds = validate_metainfo_file(&good, refstring);
    assert_eq!(ds.len(), 1);
    assert!(matches!(
        &ds[0].info,
        DiagnosticInfo::FlatpakBuilderLint { stdout, .. } if stdout == "bad"
    ));
}

#[test]
fn test_do_review_blocks_on_collection_failure() {
    // validation found nothing, but the moderation excerpt of the reviewed
    // ref cannot be collected: the run still fails
    let config = MockConfig {
        requires_review: false,
        email_fails: false,
        statuses: RefCell::new(vec![]),
        submitted_item_counts: RefCell::new(vec![]),
    };
    let mut result = CheckResult { diagnostics: vec![] };
    let refs = vec![ref_input(
        "app/org.test.App/x86_64/stable",
        FileRead::Missing,
        true,
    )];
    let status = do_review(&config, &mut result, &refs).unwrap();
    assert_eq!(
        status,
        CheckStatus::Failed("One or more validations failed.".to_string())
    );
    assert_eq!(*config.statuses.borrow(), vec![status]);
    assert_eq!(result.diagnostics.len(), 1);
    assert!(!result.diagnostics[0].is_warning);
}

#[test]
fn test_do_review_submits_excerpts_of_moderated_refs() {
    // the excerpt of the one reviewed-architecture ref is submitted; the
    // other architecture of the same app is not reviewed twice
    let config = MockConfig {
        requires_review: false,
        email_fails: false,
        statuses: RefCell::new(vec![]),
        submitted_item_counts: RefCell::new(vec![]),
    };
    let mut result = CheckResult { diagnostics: vec![] };
    let refs = vec![
        ref_input(
            "app/org.test.App/x86_64/stable",
            catalog_for("org.test.App", "<name>Test App</name><summary>Does things</summary>"),
            true,
        ),
        ref_input(
            "app/org.test.App/aarch64/stable",
            catalog_for("org.test.App", "<name>Test App</name>"),
            true,
        ),
    ];
    let status = do_review(&config, &mut result, &refs).unwrap();
    assert_eq!(status, CheckStatus::Pending);
    assert_eq!(*config.submitted_item_counts.borrow(), vec![1]);
    assert!(result.diagnostics.is_empty());
}
