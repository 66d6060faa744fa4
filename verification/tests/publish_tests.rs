use flathub_hooks::job_utils::{Build, BuildExtended, BuildRef};
use flathub_hooks::publish::{
    commit_outcome, list_subsets, rewrite_appstream_gz, rewrite_appstream_xml, rewrite_metadata,
    CommitOutcome,
};
use flathub_hooks::storefront::{PricingInfo, StorefrontInfo, VerificationInfo};
use flathub_hooks::utils::RetryPlan;
use std::io::Read;
use std::io::Write;

fn assert_eq_ignore_space(a: &str, b: &str) {
    assert_eq!(a.replace([' ', '\n'], ""), b.replace([' ', '\n'], ""))
}

#[test]
fn test_list_subsets_1() {
    let storefront_info = StorefrontInfo {
        verification: Some(VerificationInfo {
            verified: true,
            ..Default::default()
        }),
        pricing: None,
        is_free_software: Some(true),
    };
    let subsets = list_subsets(&storefront_info);

    assert_eq!(vec!["verified", "floss", "verified_floss"], subsets);
}

#[test]
fn test_list_subsets_2() {
    let storefront_info = StorefrontInfo {
        verification: None,
        pricing: None,
        is_free_software: Some(false),
    };
    let subsets = list_subsets(&storefront_info);

    assert!(subsets.is_empty());
}

#[test]
fn test_rewrite_appstream_xml_1() {
    let original_appstream = r#"<?xml version="1.0" encoding="utf-8"?>
<components>
    <component>
        <id>org.flatpak.Test</id>
    </component>
</components>"#;

    let storefront_info = StorefrontInfo {
        verification: Some(VerificationInfo {
            verified: true,
            timestamp: Some("2023-01-01T00:00:00".to_string()),
            method: Some("website".to_string()),
            website: Some("example.com".to_string()),
            ..Default::default()
        }),
        pricing: None,
        is_free_software: None,
    };

    let result = rewrite_appstream_xml(
        &storefront_info,
        "app/org.flatpak.Test/x86_64/stable",
        &Some(BuildExtended {
            build: Build {
                app_id: None,
                repo: "".to_owned(),
                build_log_url: Some("https://example.com".to_string()),
            },
            build_refs: vec![],
        }),
        original_appstream,
    )
    .unwrap();

    assert_eq_ignore_space(
        &result,
        r#"<?xml version="1.0" encoding="utf-8"?><components>
<component>
    <id>org.flatpak.Test</id>
    <custom>
        <value key="flathub::verification::verified">true</value>
        <value key="flathub::verification::timestamp">2023-01-01T00:00:00</value>
        <value key="flathub::verification::method">website</value>
        <value key="flathub::verification::website">example.com</value>
        <value key="flathub::verification::login_is_organization">false</value>
        <value key="flathub::build::build_log_url">https://example.com</value>
    </custom>
</component>
</components>"#,
    )
}

#[test]
fn test_rewrite_appstream_xml_2() {
    let original_appstream = r#"<?xml version="1.0" encoding="utf-8"?>
<components>
    <component>
        <id>org.flatpak.Test</id>
    </component>
</components>"#;

    let storefront_info = StorefrontInfo {
        verification: None,
        pricing: Some(PricingInfo {
            minimum_payment: None,
            recommended_donation: Some(1),
        }),
        is_free_software: None,
    };

    let result = rewrite_appstream_xml(
        &storefront_info,
        "app/org.flatpak.Test/x86_64/stable",
        &Some(BuildExtended {
            build: Build {
                app_id: None,
                repo: "".to_owned(),
                build_log_url: None,
            },
            build_refs: vec![
                BuildRef {
                    ref_name: "app/org.flatpak.Test.Locale/x86_64/stable".to_string(),
                    build_log_url: Some("https://example.com/wrong".to_string()),
                },
                BuildRef {
                    ref_name: "app/org.flatpak.Test/x86_64/stable".to_string(),
                    build_log_url: Some("https://example.com".to_string()),
                },
            ],
        }),
        original_appstream,
    )
    .unwrap();

    assert_eq_ignore_space(
        &result,
        r#"<?xml version="1.0" encoding="utf-8"?><components>
<component>
    <id>org.flatpak.Test</id>
    <custom>
        <value key="flathub::pricing::recommended_donation">1</value>
        <value key="flathub::build::build_ref_log_url">https://example.com</value>
    </custom>
</component>
</components>"#,
    )
}

#[test]
fn test_rewrite_appstream_xml_removes_old_tags() {
    let original_appstream = r#"<?xml version="1.0" encoding="utf-8"?>
<components>
    <component>
        <id>org.flatpak.Test</id>
        <custom>
            <value key="flathub::pricing::recommended_donation">1</value>
            <value key="flathub::build_log_url">https://example.com</value>
        </custom>
    </component>
</components>"#;

    let storefront_info = StorefrontInfo {
        verification: None,
        pricing: Some(PricingInfo {
            minimum_payment: Some(2),
            recommended_donation: None,
        }),
        is_free_software: None,
    };

    let result = rewrite_appstream_xml(
        &storefront_info,
        "app/org.flatpak.Test/x86_64/master",
        &Some(BuildExtended {
            build: Build {
                app_id: None,
                repo: "".to_owned(),
                build_log_url: None,
            },
            build_refs: vec![],
        }),
        original_appstream,
    )
    .unwrap();

    assert_eq_ignore_space(
        &result,
        r#"<?xml version="1.0" encoding="utf-8"?><components>
<component>
    <id>org.flatpak.Test</id>
    <custom>
        <value key="flathub::pricing::minimum_payment">2</value>
    </custom>
</component>
</components>"#,
    )
}

#[test]
fn test_rewrite_appstream_xml_idempotent() {
    let original_appstream = r#"<?xml version="1.0" encoding="utf-8"?>
<components>
    <component>
        <id>org.flatpak.Test</id>
        <custom>
            <value key="flathub::manifest">kept</value>
            <value key="other">untouched</value>
        </custom>
    </component>
</components>"#;

    let storefront_info = StorefrontInfo {
        verification: Some(VerificationInfo {
            verified: true,
            timestamp: Some("2023-01-01T00:00:00".to_string()),
            ..Default::default()
        }),
        pricing: Some(PricingInfo {
            minimum_payment: Some(3),
            recommended_donation: Some(5),
        }),
        is_free_software: Some(true),
    };
    let build = Some(BuildExtended {
        build: Build {
            app_id: None,
            repo: "".to_owned(),
            build_log_url: Some("https://example.com/log".to_string()),
        },
        build_refs: vec![],
    });
    let refstring = "app/org.flatpak.Test/x86_64/stable";

    let once =
        rewrite_appstream_xml(&storefront_info, refstring, &build, original_appstream).unwrap();
    let twice = rewrite_appstream_xml(&storefront_info, refstring, &build, &once).unwrap();
    assert_eq!(once, twice);
}

#[test]
fn test_rewrite_appstream_xml_purge_exceptions() {
    let original_appstream = r#"<?xml version="1.0" encoding="utf-8"?>
<components>
    <component>
        <id>org.flatpak.Test</id>
        <custom>
            <value key="FLATHUB::Manifest">https://example.com/manifest</value>
            <value key="flathub::build::build_log_url">https://example.com/old-log</value>
            <value key="Flathub::Pricing::Stale">1</value>
        </custom>
    </component>
</components>"#;

    let no_facts = StorefrontInfo {
        verification: None,
        pricing: None,
        is_free_software: None,
    };

    // a republish run without fresh build facts keeps the old build log link
    let republished =
        rewrite_appstream_xml(&no_facts, "app/org.flatpak.Test/x86_64/stable", &None, original_appstream)
            .unwrap();
    assert!(republished.contains("FLATHUB::Manifest"));
    assert!(republished.contains("flathub::build::build_log_url"));
    assert!(!republished.contains("Flathub::Pricing::Stale"));

    // a run with fresh build facts replaces the build log keys
    let build = Some(BuildExtended {
        build: Build {
            app_id: None,
            repo: "".to_owned(),
            build_log_url: None,
        },
        build_refs: vec![],
    });
    let fresh = rewrite_appstream_xml(
        &no_facts,
        "app/org.flatpak.Test/x86_64/stable",
        &build,
        original_appstream,
    )
    .unwrap();
    assert!(fresh.contains("FLATHUB::Manifest"));
    assert!(!fresh.contains("flathub::build::build_log_url"));
}

#[test]
fn test_rewrite_appstream_xml_no_change_returns_input() {
    let original_appstream = r#"<?xml version="1.0" encoding="utf-8"?>
<components>
    <component>
        <id>org.flatpak.Test</id>
    </component>
</components>"#;

    let no_facts = StorefrontInfo {
        verification: None,
        pricing: None,
        is_free_software: None,
    };
    let result = rewrite_appstream_xml(
        &no_facts,
        "app/org.flatpak.Test/x86_64/stable",
        &None,
        original_appstream,
    )
    .unwrap();
    assert_eq!(result, original_appstream);
}

#[test]
fn test_rewrite_appstream_xml_rejects_multiple_components() {
    let original_appstream = r#"<?xml version="1.0" encoding="utf-8"?>
<components>
    <component><id>a</id></component>
    <component><id>b</id></component>
</components>"#;

    let no_facts = StorefrontInfo {
        verification: None,
        pricing: None,
        is_free_software: None,
    };
    let result = rewrite_appstream_xml(
        &no_facts,
        "app/org.flatpak.Test/x86_64/stable",
        &None,
        original_appstream,
    );
    let err = result.unwrap_err();
    assert_eq!(
        err.message(),
        "Expected exactly 1 <component> tag, found 2"
    );
}

#[test]
fn test_rewrite_appstream_gz_no_change() {
    let original_appstream = r#"<?xml version="1.0" encoding="utf-8"?>
<components>
    <component>
        <id>org.flatpak.Test</id>
    </component>
</components>"#;
    let mut enc =
        flate2::write::GzEncoder::new(Vec::new(), flate2::Compression::default());
    enc.write_all(original_appstream.as_bytes()).unwrap();
    let gz = enc.finish().unwrap();

    let no_facts = StorefrontInfo {
        verification: None,
        pricing: None,
        is_free_software: None,
    };
    let unchanged = rewrite_appstream_gz(
        &no_facts,
        "app/org.flatpak.Test/x86_64/stable",
        &None,
        &gz,
    )
    .unwrap();
    assert!(unchanged.is_none());

    // with facts, the file is rewritten and decompresses to the new document
    let facts = StorefrontInfo {
        verification: Some(VerificationInfo {
            verified: true,
            ..Default::default()
        }),
        pricing: None,
        is_free_software: None,
    };
    let rewritten = rewrite_appstream_gz(
        &facts,
        "app/org.flatpak.Test/x86_64/stable",
        &None,
        &gz,
    )
    .unwrap()
    .unwrap();
    let mut text = String::new();
    flate2::read::GzDecoder::new(rewritten.as_slice())
        .read_to_string(&mut text)
        .unwrap();
    assert!(text.contains("flathub::verification::verified"));
}

#[test]
fn test_rewrite_metadata_token_type() {
    let paid = StorefrontInfo {
        verification: None,
        pricing: Some(PricingInfo {
            recommended_donation: Some(1),
            minimum_payment: None,
        }),
        is_free_software: None,
    };
    let edits = rewrite_metadata(&paid);
    assert_eq!(edits.token_type, Some(1));
    assert!(edits.subsets.is_none());

    let free = StorefrontInfo {
        verification: None,
        pricing: Some(PricingInfo {
            recommended_donation: Some(0),
            minimum_payment: Some(0),
        }),
        is_free_software: None,
    };
    let edits = rewrite_metadata(&free);
    assert_eq!(edits.token_type, None);
}

#[test]
fn test_rewrite_metadata_subsets() {
    let info = StorefrontInfo {
        verification: Some(VerificationInfo {
            verified: true,
            ..Default::default()
        }),
        pricing: None,
        is_free_software: Some(true),
    };
    let edits = rewrite_metadata(&info);
    assert_eq!(
        edits.subsets,
        Some(vec![
            "verified".to_string(),
            "floss".to_string(),
            "verified_floss".to_string()
        ])
    );

    let empty = StorefrontInfo {
        verification: Some(VerificationInfo {
            verified: false,
            ..Default::default()
        }),
        pricing: None,
        is_free_software: Some(false),
    };
    let edits = rewrite_metadata(&empty);
    assert!(edits.subsets.is_none());
}

#[test]
fn test_commit_outcome() {
    assert_eq!(commit_outcome("abc123", "abc123"), CommitOutcome::Unchanged);
    assert_eq!(commit_outcome("abc123", "def456"), CommitOutcome::Rewritten);
}

#[test]
fn test_retry_plan_doubles() {
    let p = RetryPlan::initial();
    assert_eq!(p.wait_secs(), 1);
    let p = p.next().unwrap();
    assert_eq!(p.wait_secs(), 2);
    let p = p.next().unwrap();
    assert_eq!(p.wait_secs(), 4);
    let p = p.next().unwrap().next().unwrap().next().unwrap();
    assert_eq!(p.wait_secs(), 32);
    assert!(p.next().is_none());
}
