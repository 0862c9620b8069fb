use mpq_cli::command::{
    execute, format_version_of, parse_compression, parse_output_format, parse_version,
    version_arg_of, MpqCommands, MpqError, MpqTask, OutputFormat, VersionArg,
};

fn create(version: &str, compression: &str) -> MpqCommands {
    MpqCommands::Create {
        archive: "out.mpq".to_string(),
        add: vec!["a.txt".to_string()],
        version: version.to_string(),
        compression: compression.to_string(),
        with_listfile: true,
    }
}

#[test]
fn create_decodes_version_and_compression() {
    match execute(create("v3", "bzip2")) {
        Ok(MpqTask::Create { archive, files, version, compression, with_listfile }) => {
            assert_eq!(archive, "out.mpq");
            assert_eq!(files, vec!["a.txt".to_string()]);
            assert_eq!(version, VersionArg::V3);
            assert_eq!(compression, 0x10);
            assert!(with_listfile);
        }
        _ => panic!("expected a create task"),
    }
}

#[test]
fn create_rejects_unknown_version_first() {
    match execute(create("v5", "rar")) {
        Err(MpqError::InvalidVersion(v)) => assert_eq!(v, "v5"),
        _ => panic!("expected an invalid version"),
    }
}

#[test]
fn create_rejects_unknown_compression() {
    match execute(create("v1", "rar")) {
        Err(MpqError::InvalidCompression(c)) => assert_eq!(c, "rar"),
        _ => panic!("expected an invalid compression"),
    }
}

#[test]
fn compression_names_map_to_wow_mpq_flags() {
    assert_eq!(parse_compression("none"), Some(0));
    assert_eq!(parse_compression("zlib"), Some(wow_mpq::compression::flags::ZLIB));
    assert_eq!(parse_compression("bzip2"), Some(wow_mpq::compression::flags::BZIP2));
    assert_eq!(parse_compression("lzma"), Some(wow_mpq::compression::flags::LZMA));
    assert_eq!(parse_compression("zlib"), Some(0x02));
    assert_eq!(parse_compression("lzma"), Some(0x12));
    assert_eq!(parse_compression("ZLIB"), None);
}

#[test]
fn version_names_are_case_sensitive() {
    assert_eq!(parse_version("v1"), Some(VersionArg::V1));
    assert_eq!(parse_version("v2"), Some(VersionArg::V2));
    assert_eq!(parse_version("v4"), Some(VersionArg::V4));
    assert_eq!(parse_version("V1"), None);
    assert_eq!(parse_version(""), None);
}

#[test]
fn rebuild_decodes_compression_override() {
    let cmd = MpqCommands::Rebuild {
        source: "a.mpq".to_string(),
        target: "b.mpq".to_string(),
        preserve_format: true,
        upgrade_to: Some(VersionArg::V4),
        skip_encrypted: false,
        skip_signatures: true,
        verify: true,
        compression: Some("lzma".to_string()),
        block_size: Some(3),
        list_only: false,
    };
    match execute(cmd) {
        Ok(MpqTask::Rebuild { source, target, options }) => {
            assert_eq!(source, "a.mpq");
            assert_eq!(target, "b.mpq");
            assert!(options.preserve_format);
            assert_eq!(options.target_format, Some(VersionArg::V4));
            assert!(options.preserve_order);
            assert!(!options.skip_encrypted);
            assert!(options.skip_signatures);
            assert!(options.verify);
            assert_eq!(options.override_compression, Some(0x12));
            assert_eq!(options.override_block_size, Some(3));
            assert!(!options.list_only);
        }
        _ => panic!("expected a rebuild task"),
    }
}

#[test]
fn rebuild_rejects_unknown_compression() {
    let cmd = MpqCommands::Rebuild {
        source: "a.mpq".to_string(),
        target: "b.mpq".to_string(),
        preserve_format: true,
        upgrade_to: None,
        skip_encrypted: false,
        skip_signatures: true,
        verify: false,
        compression: Some("zip".to_string()),
        block_size: None,
        list_only: true,
    };
    assert!(matches!(execute(cmd), Err(MpqError::InvalidCompression(c)) if c == "zip"));
}

#[test]
fn compare_output_falls_back_to_table() {
    assert_eq!(parse_output_format("json"), OutputFormat::Json);
    assert_eq!(parse_output_format("summary"), OutputFormat::Summary);
    assert_eq!(parse_output_format("table"), OutputFormat::Table);
    assert_eq!(parse_output_format("xml"), OutputFormat::Table);
    let cmd = MpqCommands::Compare {
        source: "a".to_string(),
        target: "b".to_string(),
        detailed: true,
        content_check: false,
        metadata_only: false,
        ignore_order: true,
        output: "summary".to_string(),
        filter: Some("*.blp".to_string()),
    };
    match execute(cmd) {
        Ok(MpqTask::Compare { output, filter, detailed, ignore_order, .. }) => {
            assert_eq!(output, OutputFormat::Summary);
            assert_eq!(filter, Some("*.blp".to_string()));
            assert!(detailed && ignore_order);
        }
        _ => panic!("expected a compare task"),
    }
}

#[test]
fn tree_shows_external_refs_unless_disabled() {
    let cmd = MpqCommands::Tree {
        archive: "a.mpq".to_string(),
        depth: Some(2),
        no_external_refs: true,
        no_color: false,
        compact: true,
        filter: None,
    };
    match execute(cmd) {
        Ok(MpqTask::Tree { show_external_refs, max_depth, compact, .. }) => {
            assert!(!show_external_refs);
            assert_eq!(max_depth, Some(2));
            assert!(compact);
        }
        _ => panic!("expected a tree task"),
    }
}

#[test]
fn list_extract_info_validate_carry_their_arguments() {
    let list = MpqCommands::List { archive: "a".to_string(), long: true, filter: None };
    assert!(matches!(execute(list), Ok(MpqTask::List { long: true, filter: None, .. })));
    let info = MpqCommands::Info {
        archive: "a".to_string(),
        show_hash_table: true,
        show_block_table: false,
    };
    assert!(matches!(
        execute(info),
        Ok(MpqTask::Info { show_hash_table: true, show_block_table: false, .. })
    ));
    let validate = MpqCommands::Validate { archive: "a".to_string(), check_checksums: true };
    assert!(matches!(execute(validate), Ok(MpqTask::Validate { check_checksums: true, .. })));
    let extract = MpqCommands::Extract {
        archive: "a".to_string(),
        output: ".".to_string(),
        files: vec![],
        preserve_paths: true,
    };
    assert!(matches!(execute(extract), Ok(MpqTask::Extract { preserve_paths: true, .. })));
}

#[test]
fn versions_convert_to_and_from_wow_mpq() {
    for v in [VersionArg::V1, VersionArg::V2, VersionArg::V3, VersionArg::V4] {
        let f = format_version_of(v);
        assert_eq!(version_arg_of(&f), v);
        assert_eq!(VersionArg::from_raw(v.raw()), Some(v));
    }
    assert_eq!(format_version_of(VersionArg::V3), wow_mpq::FormatVersion::V3);
    assert_eq!(version_arg_of(&wow_mpq::FormatVersion::V2), VersionArg::V2);
    assert_eq!(VersionArg::from_raw(4), None);
}
