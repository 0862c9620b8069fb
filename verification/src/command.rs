//! The `mpq` subcommands and their decoding into fully checked tasks.

use vstd::prelude::*;
use wow_mpq::FormatVersion;
use crate::archive_api::{bzip2_flag, format_version_raw, lzma_flag, version_number, zlib_flag};
use crate::text::str_eq;

verus! {

/// An MPQ format version as given on the command line.
#[derive(Clone, Copy, Debug, PartialEq, Eq, Structural)]
pub enum VersionArg {
    V1,
    V2,
    V3,
    V4,
}

impl VersionArg {
    /// The raw header number of the version (`V1` is 0, ..., `V4` is 3).
    pub open spec fn spec_raw(self) -> u16 {
        match self {
            VersionArg::V1 => 0,
            VersionArg::V2 => 1,
            VersionArg::V3 => 2,
            VersionArg::V4 => 3,
        }
    }

    /// The version whose raw header number is `raw`, if there is one.
    pub open spec fn spec_from_raw(raw: u16) -> Option<VersionArg> {
        if raw == 0 {
            Some(VersionArg::V1)
        } else if raw == 1 {
            Some(VersionArg::V2)
        } else if raw == 2 {
            Some(VersionArg::V3)
        } else if raw == 3 {
            Some(VersionArg::V4)
        } else {
            None
        }
    }

    /// The raw header number of the version.
    pub fn raw(&self) -> (r: u16)
        ensures
            r == self.spec_raw(),
    {
        match self {
            VersionArg::V1 => 0,
            VersionArg::V2 => 1,
            VersionArg::V3 => 2,
            VersionArg::V4 => 3,
        }
    }

    /// The version whose raw header number is `raw`; `None` above 3.
    pub fn from_raw(raw: u16) -> (r: Option<VersionArg>)
        ensures
            r == Self::spec_from_raw(raw),
    {
        if raw == 0 {
            Some(VersionArg::V1)
        } else if raw == 1 {
            Some(VersionArg::V2)
        } else if raw == 2 {
            Some(VersionArg::V3)
        } else if raw == 3 {
            Some(VersionArg::V4)
        } else {
            None
        }
    }
}

/// A version's raw header number leads back to that version, and every
/// number that names a version is that version's number.
pub proof fn lemma_raw_roundtrip(v: VersionArg, raw: u16)
    ensures
        VersionArg::spec_from_raw(v.spec_raw()) == Some(v),
        VersionArg::spec_from_raw(raw) matches Some(w) ==> w.spec_raw() == raw,
        VersionArg::spec_from_raw(raw) is Some <==> raw <= 3,
{
}

/// The `wow_mpq` format version that a command-line version names: the
/// one with the same raw header number.
pub fn format_version_of(arg: VersionArg) -> (r: FormatVersion)
    ensures
        version_number(r) == arg.spec_raw(),
{
    let raw = arg.raw();
    match FormatVersion::from_raw(raw) {
        Some(v) => v,
        None => vstd::pervasive::unreached(),
    }
}

/// The command-line version of a `wow_mpq` format version: the one with
/// the same raw header number.
pub fn version_arg_of(v: &FormatVersion) -> (r: VersionArg)
    ensures
        r.spec_raw() == version_number(*v),
        Some(r) == VersionArg::spec_from_raw(version_number(*v)),
{
    let raw = format_version_raw(v);
    match VersionArg::from_raw(raw) {
        Some(a) => a,
        None => vstd::pervasive::unreached(),
    }
}

/// Converting a command-line version to a `wow_mpq` version and back gives
/// the version it started from.
pub proof fn lemma_version_conversion_roundtrip(arg: VersionArg, v: FormatVersion, back: VersionArg)
    requires
        version_number(v) == arg.spec_raw(),
        back.spec_raw() == version_number(v),
    ensures
        back == arg,
{
}


/// The `mpq` subcommands with their arguments.
pub enum MpqCommands {
    /// List files in an MPQ archive.
    List { archive: String, long: bool, filter: Option<String> },
    /// Extract files from an MPQ archive.
    Extract { archive: String, output: String, files: Vec<String>, preserve_paths: bool },
    /// Create a new MPQ archive.
    Create {
        archive: String,
        add: Vec<String>,
        version: String,
        compression: String,
        with_listfile: bool,
    },
    /// Show information about an MPQ archive.
    Info { archive: String, show_hash_table: bool, show_block_table: bool },
    /// Validate the integrity of an MPQ archive.
    Validate { archive: String, check_checksums: bool },
    /// Rebuild an MPQ archive 1:1.
    Rebuild {
        source: String,
        target: String,
        preserve_format: bool,
        upgrade_to: Option<VersionArg>,
        skip_encrypted: bool,
        skip_signatures: bool,
        verify: bool,
        compression: Option<String>,
        block_size: Option<u16>,
        list_only: bool,
    },
    /// Compare two MPQ archives.
    Compare {
        source: String,
        target: String,
        detailed: bool,
        content_check: bool,
        metadata_only: bool,
        ignore_order: bool,
        output: String,
        filter: Option<String>,
    },
    /// Show the tree structure of an MPQ archive.
    Tree {
        archive: String,
        depth: Option<usize>,
        no_external_refs: bool,
        no_color: bool,
        compact: bool,
        filter: Option<String>,
    },
}

/// Why a command was refused before any archive was touched.
#[derive(Debug)]
pub enum MpqError {
    /// The `--version` of `create` is not one of `v1`, `v2`, `v3`, `v4`.
    InvalidVersion(String),
    /// The compression name is not one of `none`, `zlib`, `bzip2`, `lzma`.
    InvalidCompression(String),
}

/// How `compare` presents its result.
#[derive(Clone, Copy, Debug, PartialEq, Eq, Structural)]
pub enum OutputFormat {
    Json,
    Summary,
    Table,
}

/// The options handed to `wow_mpq::rebuild_archive`, as plain values.
pub struct RebuildPlan {
    pub preserve_format: bool,
    pub target_format: Option<VersionArg>,
    pub preserve_order: bool,
    pub skip_encrypted: bool,
    pub skip_signatures: bool,
    pub verify: bool,
    pub override_compression: Option<u8>,
    pub override_block_size: Option<u16>,
    pub list_only: bool,
}

/// A command whose arguments have all been checked and decoded.
pub enum MpqTask {
    List { archive: String, long: bool, filter: Option<String> },
    Extract { archive: String, output: String, files: Vec<String>, preserve_paths: bool },
    Create {
        archive: String,
        files: Vec<String>,
        version: VersionArg,
        compression: u8,
        with_listfile: bool,
    },
    Info { archive: String, show_hash_table: bool, show_block_table: bool },
    Validate { archive: String, check_checksums: bool },
    Rebuild { source: String, target: String, options: RebuildPlan },
    Compare {
        source: String,
        target: String,
        detailed: bool,
        content_check: bool,
        metadata_only: bool,
        ignore_order: bool,
        output: OutputFormat,
        filter: Option<String>,
    },
    Tree {
        archive: String,
        max_depth: Option<usize>,
        show_external_refs: bool,
        no_color: bool,
        compact: bool,
        filter: Option<String>,
    },
}

/// The format version that a `--version` argument names.
pub open spec fn spec_parse_version(s: Seq<char>) -> Option<VersionArg> {
    if s == "v1"@ {
        Some(VersionArg::V1)
    } else if s == "v2"@ {
        Some(VersionArg::V2)
    } else if s == "v3"@ {
        Some(VersionArg::V3)
    } else if s == "v4"@ {
        Some(VersionArg::V4)
    } else {
        None
    }
}

/// The `wow_mpq` compression flags that a compression name stands for.
pub open spec fn spec_parse_compression(s: Seq<char>) -> Option<u8> {
    if s == "none"@ {
        Some(0u8)
    } else if s == "zlib"@ {
        Some(0x02u8)
    } else if s == "bzip2"@ {
        Some(0x10u8)
    } else if s == "lzma"@ {
        Some(0x12u8)
    } else {
        None
    }
}

/// The output format that a `--output` argument of `compare` selects; any
/// name but `json` and `summary` selects the table.
pub open spec fn spec_output_format(s: Seq<char>) -> OutputFormat {
    if s == "json"@ {
        OutputFormat::Json
    } else if s == "summary"@ {
        OutputFormat::Summary
    } else {
        OutputFormat::Table
    }
}

/// Decodes a `--version` argument of `create`.
pub fn parse_version(s: &str) -> (r: Option<VersionArg>)
    ensures
        r == spec_parse_version(s@),
{
    if str_eq(s, "v1") {
        Some(VersionArg::V1)
    } else if str_eq(s, "v2") {
        Some(VersionArg::V2)
    } else if str_eq(s, "v3") {
        Some(VersionArg::V3)
    } else if str_eq(s, "v4") {
        Some(VersionArg::V4)
    } else {
        None
    }
}

/// Decodes a compression name into `wow_mpq` compression flags.
pub fn parse_compression(s: &str) -> (r: Option<u8>)
    ensures
        r == spec_parse_compression(s@),
{
    if str_eq(s, "none") {
        Some(0)
    } else if str_eq(s, "zlib") {
        Some(zlib_flag())
    } else if str_eq(s, "bzip2") {
        Some(bzip2_flag())
    } else if str_eq(s, "lzma") {
        Some(lzma_flag())
    } else {
        None
    }
}

/// Decodes the `--output` argument of `compare`.
pub fn parse_output_format(s: &str) -> (r: OutputFormat)
    ensures
        r == spec_output_format(s@),
{
    if str_eq(s, "json") {
        OutputFormat::Json
    } else if str_eq(s, "summary") {
        OutputFormat::Summary
    } else {
        OutputFormat::Table
    }
}


/// The task that a command decodes to, or the error that refuses it.
///
/// `create` checks its version before its compression; `rebuild` checks its
/// optional compression override; `compare` falls back to the table for an
/// unknown output format; `tree` shows external references unless told not
/// to; every other argument is carried over unchanged.
pub open spec fn spec_plan(command: MpqCommands) -> Result<MpqTask, MpqError> {
    match command {
        MpqCommands::List { archive, long, filter } => Ok(MpqTask::List { archive, long, filter }),
        MpqCommands::Extract { archive, output, files, preserve_paths } => Ok(
            MpqTask::Extract { archive, output, files, preserve_paths },
        ),
        MpqCommands::Create { archive, add, version, compression, with_listfile } => {
            match spec_parse_version(version@) {
                None => Err(MpqError::InvalidVersion(version)),
                Some(v) => match spec_parse_compression(compression@) {
                    None => Err(MpqError::InvalidCompression(compression)),
                    Some(c) => Ok(
                        MpqTask::Create {
                            archive,
                            files: add,
                            version: v,
                            compression: c,
                            with_listfile,
                        },
                    ),
                },
            }
        },
        MpqCommands::Info { archive, show_hash_table, show_block_table } => Ok(
            MpqTask::Info { archive, show_hash_table, show_block_table },
        ),
        MpqCommands::Validate { archive, check_checksums } => Ok(
            MpqTask::Validate { archive, check_checksums },
        ),
        MpqCommands::Rebuild {
            source,
            target,
            preserve_format,
            upgrade_to,
            skip_encrypted,
            skip_signatures,
            verify,
            compression,
            block_size,
            list_only,
        } => {
            let plan = |c: Option<u8>|
                MpqTask::Rebuild {
                    source,
                    target,
                    options: RebuildPlan {
                        preserve_format,
                        target_format: upgrade_to,
                        preserve_order: true,
                        skip_encrypted,
                        skip_signatures,
                        verify,
                        override_compression: c,
                        override_block_size: block_size,
                        list_only,
                    },
                };
            match compression {
                None => Ok(plan(None)),
                Some(name) => match spec_parse_compression(name@) {
                    None => Err(MpqError::InvalidCompression(name)),
                    Some(c) => Ok(plan(Some(c))),
                },
            }
        },
        MpqCommands::Compare {
            source,
            target,
            detailed,
            content_check,
            metadata_only,
            ignore_order,
            output,
            filter,
        } => Ok(
            MpqTask::Compare {
                source,
                target,
                detailed,
                content_check,
                metadata_only,
                ignore_order,
                output: spec_output_format(output@),
                filter,
            },
        ),
        MpqCommands::Tree { archive, depth, no_external_refs, no_color, compact, filter } => Ok(
            MpqTask::Tree {
                archive,
                max_depth: depth,
                show_external_refs: !no_external_refs,
                no_color,
                compact,
                filter,
            },
        ),
    }
}

/// Checks and decodes a command into the task to perform.
pub fn execute(command: MpqCommands) -> (r: Result<MpqTask, MpqError>)
    ensures
        r == spec_plan(command),
{
    match command {
        MpqCommands::List { archive, long, filter } => Ok(MpqTask::List { archive, long, filter }),
        MpqCommands::Extract { archive, output, files, preserve_paths } => Ok(
            MpqTask::Extract { archive, output, files, preserve_paths },
        ),
        MpqCommands::Create { archive, add, version, compression, with_listfile } => {
            let v = match parse_version(version.as_str()) {
                Some(v) => v,
                None => return Err(MpqError::InvalidVersion(version)),
            };
            let c = match parse_compression(compression.as_str()) {
                Some(c) => c,
                None => return Err(MpqError::InvalidCompression(compression)),
            };
            Ok(MpqTask::Create { archive, files: add, version: v, compression: c, with_listfile })
        },
        MpqCommands::Info { archive, show_hash_table, show_block_table } => Ok(
            MpqTask::Info { archive, show_hash_table, show_block_table },
        ),
        MpqCommands::Validate { archive, check_checksums } => Ok(
            MpqTask::Validate { archive, check_checksums },
        ),
        MpqCommands::Rebuild {
            source,
            target,
            preserve_format,
            upgrade_to,
            skip_encrypted,
            skip_signatures,
            verify,
            compression,
            block_size,
            list_only,
        } => {
            let override_compression = match compression {
                None => None,
                Some(name) => match parse_compression(name.as_str()) {
                    Some(c) => Some(c),
                    None => return Err(MpqError::InvalidCompression(name)),
                },
            };
            Ok(
                MpqTask::Rebuild {
                    source,
                    target,
                    options: RebuildPlan {
                        preserve_format,
                        target_format: upgrade_to,
                        preserve_order: true,
                        skip_encrypted,
                        skip_signatures,
                        verify,
                        override_compression,
                        override_block_size: block_size,
                        list_only,
                    },
                },
            )
        },
        MpqCommands::Compare {
            source,
            target,
            detailed,
            content_check,
            metadata_only,
            ignore_order,
            output,
            filter,
        } => {
            let output = parse_output_format(output.as_str());
            Ok(
                MpqTask::Compare {
                    source,
                    target,
                    detailed,
                    content_check,
                    metadata_only,
                    ignore_order,
                    output,
                    filter,
                },
            )
        },
        MpqCommands::Tree { archive, depth, no_external_refs, no_color, compact, filter } => Ok(
            MpqTask::Tree {
                archive,
                max_depth: depth,
                show_external_refs: !no_external_refs,
                no_color,
                compact,
                filter,
            },
        ),
    }
}

} // verus!

verus! {

proof fn lemma_names_spelled()
    ensures
        "v1"@ == seq!['v', '1'],
        "v2"@ == seq!['v', '2'],
        "v3"@ == seq!['v', '3'],
        "v4"@ == seq!['v', '4'],
        "none"@ == seq!['n', 'o', 'n', 'e'],
        "zlib"@ == seq!['z', 'l', 'i', 'b'],
        "bzip2"@ == seq!['b', 'z', 'i', 'p', '2'],
        "lzma"@ == seq!['l', 'z', 'm', 'a'],
        "json"@ == seq!['j', 's', 'o', 'n'],
        "summary"@ == seq!['s', 'u', 'm', 'm', 'a', 'r', 'y'],
{
    reveal_strlit("v1");
    reveal_strlit("v2");
    reveal_strlit("v3");
    reveal_strlit("v4");
    reveal_strlit("none");
    reveal_strlit("zlib");
    reveal_strlit("bzip2");
    reveal_strlit("lzma");
    reveal_strlit("json");
    reveal_strlit("summary");
    assert("v1"@ =~= seq!['v', '1']);
    assert("v2"@ =~= seq!['v', '2']);
    assert("v3"@ =~= seq!['v', '3']);
    assert("v4"@ =~= seq!['v', '4']);
    assert("none"@ =~= seq!['n', 'o', 'n', 'e']);
    assert("zlib"@ =~= seq!['z', 'l', 'i', 'b']);
    assert("bzip2"@ =~= seq!['b', 'z', 'i', 'p', '2']);
    assert("lzma"@ =~= seq!['l', 'z', 'm', 'a']);
    assert("json"@ =~= seq!['j', 's', 'o', 'n']);
    assert("summary"@ =~= seq!['s', 'u', 'm', 'm', 'a', 'r', 'y']);
}

/// The compression names and the `wow_mpq` flags they stand for: `none` is
/// 0, `zlib` 0x02, `bzip2` 0x10, `lzma` 0x12, and no other name is known.
pub proof fn lemma_compression_names(s: Seq<char>)
    ensures
        spec_parse_compression(s) == Some(0u8) <==> s == seq!['n', 'o', 'n', 'e'],
        spec_parse_compression(s) == Some(0x02u8) <==> s == seq!['z', 'l', 'i', 'b'],
        spec_parse_compression(s) == Some(0x10u8) <==> s == seq!['b', 'z', 'i', 'p', '2'],
        spec_parse_compression(s) == Some(0x12u8) <==> s == seq!['l', 'z', 'm', 'a'],
        spec_parse_compression(s) is None <==> !(s == seq!['n', 'o', 'n', 'e'] || s == seq!['z', 'l', 'i', 'b']
            || s == seq!['b', 'z', 'i', 'p', '2'] || s == seq!['l', 'z', 'm', 'a']),
{
    lemma_names_spelled();
}

/// The version names: `v1` to `v4` name the versions with raw numbers 0 to
/// 3, and no other name is known.
pub proof fn lemma_version_names(s: Seq<char>)
    ensures
        spec_parse_version(s) == Some(VersionArg::V1) <==> s == seq!['v', '1'],
        spec_parse_version(s) == Some(VersionArg::V2) <==> s == seq!['v', '2'],
        spec_parse_version(s) == Some(VersionArg::V3) <==> s == seq!['v', '3'],
        spec_parse_version(s) == Some(VersionArg::V4) <==> s == seq!['v', '4'],
        spec_parse_version(s) matches Some(v) ==> s == seq!['v', ((v.spec_raw() + 49) as char)],
{
    lemma_names_spelled();
}

/// `compare` shows JSON exactly for `json`, the summary exactly for
/// `summary`, and the tables for any other name.
pub proof fn lemma_output_formats(s: Seq<char>)
    ensures
        spec_output_format(s) == OutputFormat::Json <==> s == seq!['j', 's', 'o', 'n'],
        spec_output_format(s) == OutputFormat::Summary <==> s == seq!['s', 'u', 'm', 'm', 'a', 'r', 'y'],
        spec_output_format(s) == OutputFormat::Table <==> !(s == seq!['j', 's', 'o', 'n'] || s == seq!['s', 'u', 'm', 'm', 'a', 'r', 'y']),
{
    lemma_names_spelled();
}

/// Decoding `list`, `extract`, `info` and `validate` always succeeds and
/// carries every argument over unchanged.
pub proof fn lemma_plain_commands_carry_arguments(
    archive: String,
    long: bool,
    filter: Option<String>,
    output: String,
    files: Vec<String>,
    flag_a: bool,
    flag_b: bool,
)
    ensures
        spec_plan(MpqCommands::List { archive, long, filter }) == Ok::<MpqTask, MpqError>(
            MpqTask::List { archive, long, filter },
        ),
        spec_plan(MpqCommands::Extract { archive, output, files, preserve_paths: flag_a })
            == Ok::<MpqTask, MpqError>(
            MpqTask::Extract { archive, output, files, preserve_paths: flag_a },
        ),
        spec_plan(MpqCommands::Info { archive, show_hash_table: flag_a, show_block_table: flag_b })
            == Ok::<MpqTask, MpqError>(
            MpqTask::Info { archive, show_hash_table: flag_a, show_block_table: flag_b },
        ),
        spec_plan(MpqCommands::Validate { archive, check_checksums: flag_a }) == Ok::<
            MpqTask,
            MpqError,
        >(MpqTask::Validate { archive, check_checksums: flag_a }),
{
}

/// Decoding `tree` always succeeds: references are shown exactly when they
/// are not hidden, and the other arguments carry over unchanged.
pub proof fn lemma_tree_command(
    archive: String,
    depth: Option<usize>,
    no_external_refs: bool,
    no_color: bool,
    compact: bool,
    filter: Option<String>,
)
    ensures
        spec_plan(MpqCommands::Tree { archive, depth, no_external_refs, no_color, compact, filter })
            matches Ok(MpqTask::Tree { archive: a, max_depth, show_external_refs, no_color: nc, compact: c, filter: f })
            && a == archive && max_depth == depth && show_external_refs == !no_external_refs
            && nc == no_color && c == compact && f == filter,
{
}

/// Decoding `compare` always succeeds, with the output format its name
/// selects and every other argument unchanged.
pub proof fn lemma_compare_command(
    source: String,
    target: String,
    detailed: bool,
    content_check: bool,
    metadata_only: bool,
    ignore_order: bool,
    output: String,
    filter: Option<String>,
)
    ensures
        spec_plan(
            MpqCommands::Compare {
                source,
                target,
                detailed,
                content_check,
                metadata_only,
                ignore_order,
                output,
                filter,
            },
        ) matches Ok(MpqTask::Compare { source: s, target: t, detailed: d, content_check: cc, metadata_only: mo, ignore_order: io, output: o, filter: f })
            && s == source && t == target && d == detailed && cc == content_check
            && mo == metadata_only && io == ignore_order && f == filter
            && o == spec_output_format(output@),
{
}

/// Decoding `create`: an unknown version is refused first, naming that
/// version; otherwise an unknown compression is refused, naming it;
/// otherwise the task adds the given files, in order, with the named version
/// and compression flags and the listfile choice.
pub proof fn lemma_create_command(
    archive: String,
    add: Vec<String>,
    version: String,
    compression: String,
    with_listfile: bool,
)
    ensures
        ({
            let r = spec_plan(
                MpqCommands::Create { archive, add, version, compression, with_listfile },
            );
            &&& spec_parse_version(version@) is None ==> r == Err::<MpqTask, MpqError>(
                MpqError::InvalidVersion(version),
            )
            &&& spec_parse_version(version@) is Some && spec_parse_compression(compression@) is None
                ==> r == Err::<MpqTask, MpqError>(MpqError::InvalidCompression(compression))
            &&& r is Ok <==> (spec_parse_version(version@) is Some && spec_parse_compression(
                compression@,
            ) is Some)
            &&& r matches Ok(MpqTask::Create { archive: a, files, version: v, compression: c, with_listfile: w })
                ==> a == archive && files == add && w == with_listfile
                && Some(v) == spec_parse_version(version@)
                && Some(c) == spec_parse_compression(compression@)
            &&& r is Ok ==> r matches Ok(MpqTask::Create { .. })
        }),
{
}

/// Decoding `rebuild`: it is refused exactly when a compression override is
/// given under an unknown name, naming it; otherwise the plan keeps the
/// entry order, takes the override's flags, and carries every other option
/// unchanged.
pub proof fn lemma_rebuild_command(
    source: String,
    target: String,
    preserve_format: bool,
    upgrade_to: Option<VersionArg>,
    skip_encrypted: bool,
    skip_signatures: bool,
    verify: bool,
    compression: Option<String>,
    block_size: Option<u16>,
    list_only: bool,
)
    ensures
        ({
            let r = spec_plan(
                MpqCommands::Rebuild {
                    source,
                    target,
                    preserve_format,
                    upgrade_to,
                    skip_encrypted,
                    skip_signatures,
                    verify,
                    compression,
                    block_size,
                    list_only,
                },
            );
            &&& (compression matches Some(name) && spec_parse_compression(name@) is None) ==> r
                == Err::<MpqTask, MpqError>(MpqError::InvalidCompression(compression->0))
            &&& r is Ok <==> !(compression matches Some(name) && spec_parse_compression(name@) is None)
            &&& r matches Ok(MpqTask::Rebuild { source: s, target: t, options: p }) ==> s == source
                && t == target && p.preserve_order && p.preserve_format == preserve_format
                && p.target_format == upgrade_to && p.skip_encrypted == skip_encrypted
                && p.skip_signatures == skip_signatures && p.verify == verify
                && p.override_block_size == block_size && p.list_only == list_only
                && p.override_compression == match compression {
                    None => None,
                    Some(name) => spec_parse_compression(name@),
                }
            &&& r is Ok ==> r matches Ok(MpqTask::Rebuild { .. })
        }),
{
}

} // verus!
