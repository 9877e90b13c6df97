use kernel_fuzz::metadata::{ChallengeProjectDescription, Harness, Language, MaybePath,
    ParsingError, ProjectDescriptionRaw, RawLanguage, Sanitizer, SourceEntryRaw};

fn empty_raw() -> ProjectDescriptionRaw {
    ProjectDescriptionRaw {
        cp_name: None,
        language: None,
        cp_address: None,
        cp_sources: None,
        cp_source_address: None,
        docker_image: None,
        sanitizers: None,
        harnesses: None,
    }
}

fn full_raw() -> ProjectDescriptionRaw {
    ProjectDescriptionRaw {
        cp_name: Some("foo".to_string()),
        language: Some(RawLanguage::C),
        cp_address: Some("git@github.com:project/address.git".to_string()),
        cp_sources: Some(vec![(
            "proj1".to_string(),
            SourceEntryRaw {
                address: "git@github.com:project/source1.git".to_string(),
                directory: Some(".readonly/source1".to_string()),
                referenced_commit: None,
                artifacts: None,
            },
        )]),
        cp_source_address: None,
        docker_image: Some(MaybePath::Path("ghcr.io/aixcc/docker1:v1.0.0".to_string())),
        sanitizers: Some(vec![(
            "id_1".to_string(),
            Sanitizer("KASAN: slab-out-of-bounds".to_string()),
        )]),
        harnesses: Some(vec![(
            "harness_id_1".to_string(),
            Harness {
                name: Some("test_harness_id_1".to_string()),
                source: Some(MaybePath::Path("c_script/harness1.java".to_string())),
                binary: Some(MaybePath::NoPath),
            },
        )]),
    }
}

#[test]
fn languages_are_read_case_insensitively() {
    assert_eq!(RawLanguage::try_from("C".to_string()), Ok(RawLanguage::C));
    assert_eq!(RawLanguage::try_from("c".to_string()), Ok(RawLanguage::C));
    assert_eq!(RawLanguage::try_from("java".to_string()), Ok(RawLanguage::Java));
    assert_eq!(RawLanguage::try_from("Java".to_string()), Ok(RawLanguage::Java));
    assert_eq!(
        RawLanguage::try_from("boo".to_string()),
        Ok(RawLanguage::Unknown("boo".to_string()))
    );
}

#[test]
fn path_fields_read_not_available() {
    assert_eq!(MaybePath::try_from("n/a".to_string()), Ok(MaybePath::NoPath));
    assert_eq!(MaybePath::try_from("N/A".to_string()), Ok(MaybePath::NoPath));
    assert_eq!(
        MaybePath::try_from("c_script/harness1.java".to_string()),
        Ok(MaybePath::Path("c_script/harness1.java".to_string()))
    );
    assert_eq!(
        Sanitizer::try_from("foo".to_string()),
        Ok(Sanitizer("foo".to_string()))
    );
}

#[test]
fn conversion_keeps_every_field() {
    let description = ChallengeProjectDescription::try_from(full_raw()).unwrap();
    assert_eq!(description.cp_name.as_str(), "foo");
    assert!(matches!(description.language, Language::C));
    assert_eq!(description.docker_image.as_deref(), Some("ghcr.io/aixcc/docker1:v1.0.0"));

    assert_eq!(description.sanitizers.len(), 1);
    assert_eq!(description.sanitizers[0].0.0.as_str(), "id_1");
    assert_eq!(description.sanitizers[0].1.as_str(), "KASAN: slab-out-of-bounds");

    assert_eq!(description.harnesses.len(), 1);
    assert_eq!(description.harnesses[0].0.0.as_str(), "harness_id_1");
    assert_eq!(description.harnesses[0].1.name.as_str(), "test_harness_id_1");
    assert_eq!(description.harnesses[0].1.source.as_deref(), Some("c_script/harness1.java"));
    assert_eq!(description.harnesses[0].1.binary, None);

    assert_eq!(description.cp_sources.len(), 1);
    assert_eq!(
        description.cp_sources[0].address.as_str(),
        "git@github.com:project/source1.git"
    );
    assert_eq!(description.cp_sources[0].source_ref.as_deref(), Some("main"));
    assert_eq!(description.cp_sources[0].path.as_str(), ".readonly/source1");
    assert_eq!(description.cp_sources[0].artifacts, None);
}

#[test]
fn a_missing_harness_name_takes_the_identifier() {
    let mut raw = full_raw();
    raw.harnesses = Some(vec![(
        "harness_id_1".to_string(),
        Harness {
            name: None,
            source: Some(MaybePath::NoPath),
            binary: Some(MaybePath::NoPath),
        },
    )]);
    let description = ChallengeProjectDescription::try_from(raw).unwrap();
    assert_eq!(description.harnesses[0].1.name.as_str(), "harness_id_1");
    assert_eq!(description.harnesses[0].1.source, None);
}

#[test]
fn the_older_source_shape_is_accepted() {
    let mut raw = full_raw();
    raw.cp_sources = None;
    raw.cp_source_address = Some(vec![(
        "src/lib".to_string(),
        "git@github.com:project/source2.git".to_string(),
    )]);
    let description = ChallengeProjectDescription::try_from(raw).unwrap();
    assert_eq!(description.cp_sources.len(), 1);
    assert_eq!(description.cp_sources[0].path.as_str(), "src/lib");
    assert_eq!(
        description.cp_sources[0].address.as_str(),
        "git@github.com:project/source2.git"
    );
    assert_eq!(description.cp_sources[0].source_ref.as_deref(), Some("main"));
}

#[test]
fn each_missing_field_names_its_error() {
    let cases: Vec<(ProjectDescriptionRaw, &str)> = vec![
        (empty_raw(), "No cp name provided"),
        (
            ProjectDescriptionRaw { cp_name: Some("foo".to_string()), ..empty_raw() },
            "No language provided",
        ),
        (
            ProjectDescriptionRaw {
                cp_name: Some("foo".to_string()),
                language: Some(RawLanguage::Unknown("boo".to_string())),
                ..empty_raw()
            },
            "Unsupported language: boo",
        ),
        (
            ProjectDescriptionRaw {
                cp_name: Some("foo".to_string()),
                language: Some(RawLanguage::C),
                ..empty_raw()
            },
            "No docker path provided",
        ),
        (
            ProjectDescriptionRaw {
                cp_name: Some("foo".to_string()),
                language: Some(RawLanguage::C),
                docker_image: Some(MaybePath::NoPath),
                ..empty_raw()
            },
            "No sanitizers provided",
        ),
        (
            ProjectDescriptionRaw {
                cp_name: Some("foo".to_string()),
                language: Some(RawLanguage::C),
                docker_image: Some(MaybePath::NoPath),
                sanitizers: Some(vec![]),
                ..empty_raw()
            },
            "No harnesses provided",
        ),
    ];
    for (raw, message) in cases {
        let ParsingError::ContentError(m) =
            ChallengeProjectDescription::try_from(raw).unwrap_err();
        assert_eq!(m.as_str(), message);
    }
}

#[test]
fn a_harness_without_paths_is_refused() {
    let mut raw = full_raw();
    raw.harnesses = Some(vec![(
        "h".to_string(),
        Harness { name: None, source: None, binary: Some(MaybePath::NoPath) },
    )]);
    let ParsingError::ContentError(m) =
        ChallengeProjectDescription::try_from(raw).unwrap_err();
    assert_eq!(m.as_str(), "Source error");

    let mut raw = full_raw();
    raw.harnesses = Some(vec![(
        "h".to_string(),
        Harness { name: None, source: Some(MaybePath::NoPath), binary: None },
    )]);
    let ParsingError::ContentError(m) =
        ChallengeProjectDescription::try_from(raw).unwrap_err();
    assert_eq!(m.as_str(), "Binary error");
}
