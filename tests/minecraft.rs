use ffpack::types::{Minecraft, MinecraftVersionError};
use std::cmp::Ordering;

// Sanity check a few hand picked versions
#[test]
fn smoke() {
    let pairs = vec![
        (
            "1.18.2",
            Minecraft::Release {
                major: 1,
                minor: 18,
                patch: Some(2),
            },
        ),
        (
            "1.19",
            Minecraft::Release {
                major: 1,
                minor: 19,
                patch: None,
            },
        ),
        (
            "18w10d",
            Minecraft::Snapshot {
                year: 18,
                week: 10,
                specifier: "d".to_string(),
            },
        ),
    ];
    for (raw, version) in pairs {
        match Minecraft::new(raw) {
            Ok(parsed) => assert_eq!(version, parsed),
            Err(e) => {
                println!("Failed to parse version: {}", raw);
                println!("Error: {:?}", e);
                panic!("Test failed");
            }
        }
    }
}

// Test the ordering
#[test]
fn order() {
    let versions: Vec<Minecraft> = vec![
        "1.1", "1.6.2", "1.18", "1.18.1", "1.18.2", "1.19", "18w10d", "22w28a", "22w28b",
    ]
    .into_iter()
    .map(|x| Minecraft::new(x).unwrap())
    .collect();
    for (index_1, version_1) in versions.iter().enumerate() {
        for (index_2, version_2) in versions.iter().enumerate() {
            assert_eq!(index_1.cmp(&index_2), version_1.cmp(version_2));
        }
    }
}

// Test the display implementation by round tripping
#[test]
fn display() {
    let versions_raw = vec![
        "1.1", "1.6.2", "1.18", "1.18.1", "1.18.2", "1.19", "18w10d", "22w28a", "22w28b",
    ];
    for version_raw in versions_raw {
        let parsed = Minecraft::new(version_raw).unwrap();
        let displayed = parsed.to_string();
        assert_eq!(version_raw, &displayed);
    }
}

#[test]
fn compare_agrees_with_ord_and_partial_ord() {
    let versions: Vec<Minecraft> = vec![
        "1.1", "1.6.2", "1.18", "1.18.0", "1.18.1", "1.19", "18w10d", "22w28a", "22w28b", "22w28ba",
    ]
    .into_iter()
    .map(|x| Minecraft::new(x).unwrap())
    .collect();
    for (i, a) in versions.iter().enumerate() {
        for (j, b) in versions.iter().enumerate() {
            assert_eq!(a.compare(b), i.cmp(&j));
            assert_eq!(a.partial_cmp(b), Some(i.cmp(&j)));
            assert_eq!(a.cmp(b), i.cmp(&j));
        }
    }
}

#[test]
fn absent_patch_orders_before_patch_zero() {
    let a = Minecraft::new("1.18").unwrap();
    let b = Minecraft::new("1.18.0").unwrap();
    assert_eq!(a.compare(&b), Ordering::Less);
    assert_ne!(a, b);
}

#[test]
fn snapshot_after_any_release() {
    let release = Minecraft::new("1.99.99").unwrap();
    let snapshot = Minecraft::new("18w10d").unwrap();
    assert!(release < snapshot);
    assert_eq!(snapshot.compare(&release), Ordering::Greater);
    let big = Minecraft::Release { major: 65535, minor: 65535, patch: Some(65535) };
    let small = Minecraft::Snapshot { year: 0, week: 0, specifier: "a".to_string() };
    assert_eq!(big.compare(&small), Ordering::Less);
}

#[test]
fn rejects_text_without_pattern() {
    match Minecraft::new("not a version") {
        Err(MinecraftVersionError::NoSupportedPattern { version }) => {
            assert_eq!(version, "not a version")
        }
        other => panic!("unexpected: {:?}", other),
    }
    for bad in ["", "1", "1.", ".1", "1..2", "1.2.", "1.2.3.4", "18w", "18wd", "w10d", "18w1", "18w10-", "1.2a"] {
        assert!(
            matches!(Minecraft::new(bad), Err(MinecraftVersionError::NoSupportedPattern { .. })),
            "{}",
            bad
        );
    }
}

#[test]
fn rejects_oversized_component() {
    assert!(matches!(
        Minecraft::new("99999.0"),
        Err(MinecraftVersionError::InvalidComponent { .. })
    ));
    assert!(matches!(
        Minecraft::new("1.65536"),
        Err(MinecraftVersionError::InvalidComponent { .. })
    ));
    assert!(matches!(
        Minecraft::new("18w70000a"),
        Err(MinecraftVersionError::InvalidComponent { .. })
    ));
    assert_eq!(
        Minecraft::new("65535.65535.65535").unwrap(),
        Minecraft::Release { major: 65535, minor: 65535, patch: Some(65535) }
    );
}

#[test]
fn snapshot_week_leaves_one_character() {
    assert_eq!(
        Minecraft::new("18w1023").unwrap(),
        Minecraft::Snapshot { year: 18, week: 102, specifier: "3".to_string() }
    );
    assert_eq!(
        Minecraft::new("22w28ab_c").unwrap(),
        Minecraft::Snapshot { year: 22, week: 28, specifier: "ab_c".to_string() }
    );
    assert_eq!(Minecraft::new("18w1023").unwrap().to_string(), "18w1023");
}

#[test]
fn leading_zeros_are_read_as_numbers() {
    let v = Minecraft::new("01.02").unwrap();
    assert_eq!(v, Minecraft::Release { major: 1, minor: 2, patch: None });
    assert_eq!(v.to_string(), "1.2");
}

#[test]
fn renders_every_form() {
    let r = Minecraft::Release { major: 1, minor: 18, patch: Some(2) };
    assert_eq!(r.to_string(), "1.18.2");
    let r = Minecraft::Release { major: 1, minor: 19, patch: None };
    assert_eq!(r.to_string(), "1.19");
    let s = Minecraft::Snapshot { year: 18, week: 10, specifier: "d".to_string() };
    assert_eq!(s.to_string(), "18w10d");
    let z = Minecraft::Release { major: 0, minor: 0, patch: Some(0) };
    assert_eq!(z.to_string(), "0.0.0");
}

#[test]
fn default_and_priority() {
    let d = Minecraft::default();
    assert_eq!(d, Minecraft::Release { major: 1, minor: 19, patch: None });
    assert_eq!(d.order_priority(), 1);
    assert_eq!(Minecraft::new("22w28a").unwrap().order_priority(), 2);
}

#[test]
fn unicode_digits_match_the_grammar_but_do_not_convert() {
    // Arabic-Indic one, a dot, Arabic-Indic two
    assert!(matches!(
        Minecraft::new("\u{0661}.\u{0662}"),
        Err(MinecraftVersionError::InvalidComponent { .. })
    ));
    assert!(matches!(
        Minecraft::new("1.\u{0662}"),
        Err(MinecraftVersionError::InvalidComponent { .. })
    ));
    assert!(matches!(
        Minecraft::new("\u{0661}w10a"),
        Err(MinecraftVersionError::InvalidComponent { .. })
    ));
}

#[test]
fn unicode_word_specifier() {
    let v = Minecraft::new("1w1\u{e9}").unwrap();
    assert_eq!(v, Minecraft::Snapshot { year: 1, week: 1, specifier: "\u{e9}".to_string() });
    assert_eq!(v.to_string(), "1w1\u{e9}");
    assert!(matches!(
        Minecraft::new("1w1\u{2603}"),
        Err(MinecraftVersionError::NoSupportedPattern { .. })
    ));
}
