use mpq_cli::command::VersionArg;
use mpq_cli::compare::{
    summary_lines, table_lines, ComparisonReport, DiffList, FilesReport, MetadataReport,
    SizeDiff, SummaryCounts, SummaryLine, TableLine,
};
use mpq_cli::rebuild::{progress_is_shown, rebuild_lines, RebuildLine, RebuildOutcome};

fn names(n: usize, prefix: &str) -> Vec<String> {
    (0..n).map(|i| format!("{}{}", prefix, i)).collect()
}

fn report(identical: bool, files: Option<FilesReport>) -> ComparisonReport {
    ComparisonReport {
        identical,
        metadata: MetadataReport {
            format_version: (VersionArg::V1, VersionArg::V2),
            block_size: (3, 3),
            file_count: (10, 12),
            archive_size: (1000, 1000),
            matches: false,
        },
        files,
        summary: SummaryCounts {
            identical_files: 4,
            different_files: 2,
            source_only_count: 7,
            target_only_count: 1,
        },
    }
}

fn files() -> FilesReport {
    FilesReport {
        source_only: names(7, "s"),
        target_only: names(1, "t"),
        size_differences: vec![SizeDiff {
            name: "x".to_string(),
            source_size: 1,
            target_size: 2,
            source_compressed: 1,
            target_compressed: 2,
        }],
        content_differences: vec![],
        metadata_differences: 3,
    }
}

#[test]
fn summary_of_identical_archives() {
    let lines = summary_lines(&report(true, None));
    assert_eq!(
        lines,
        vec![
            SummaryLine::Title,
            SummaryLine::SourcePath,
            SummaryLine::TargetPath,
            SummaryLine::Blank,
            SummaryLine::Identical
        ]
    );
}

#[test]
fn summary_of_identical_archives_ignores_large_counts() {
    let mut r = report(true, None);
    r.summary.different_files = usize::MAX;
    r.summary.source_only_count = usize::MAX;
    assert_eq!(summary_lines(&r).last(), Some(&SummaryLine::Identical));
}

#[test]
fn summary_of_differing_archives() {
    let lines = summary_lines(&report(false, Some(files())));
    assert_eq!(
        lines,
        vec![
            SummaryLine::Title,
            SummaryLine::SourcePath,
            SummaryLine::TargetPath,
            SummaryLine::Blank,
            SummaryLine::Differ,
            SummaryLine::Blank,
            SummaryLine::MetadataTitle,
            SummaryLine::VersionChange(VersionArg::V1, VersionArg::V2),
            SummaryLine::FileCountChange(10, 12),
            SummaryLine::Blank,
            SummaryLine::Names { list: DiffList::SourceOnly, count: 7, shown: 5 },
            SummaryLine::AndMore(2),
            SummaryLine::Blank,
            SummaryLine::Names { list: DiffList::TargetOnly, count: 1, shown: 1 },
            SummaryLine::Blank,
            SummaryLine::Count { list: DiffList::SizeDifferences, count: 1 },
            SummaryLine::Count { list: DiffList::MetadataDifferences, count: 3 },
            SummaryLine::Blank,
            SummaryLine::Total(10),
        ]
    );
}

#[test]
fn table_of_identical_archives() {
    assert_eq!(
        table_lines(&report(true, Some(files()))),
        vec![TableLine::Heading, TableLine::Rule, TableLine::Identical]
    );
}

#[test]
fn table_of_differing_archives() {
    let mut f = files();
    f.source_only = names(12, "s");
    f.content_differences = names(2, "c");
    let lines = table_lines(&report(false, Some(f)));
    let mut expected = vec![
        TableLine::Heading,
        TableLine::Rule,
        TableLine::MetadataTitle,
        TableLine::VersionRow(VersionArg::V1, VersionArg::V2, false),
        TableLine::BlockSizeRow(3, 3, true),
        TableLine::FileCountRow(10, 12, false),
        TableLine::ArchiveSizeRow(1000, 1000, true),
        TableLine::FileDifferencesTitle,
        TableLine::ListTitle { list: DiffList::SourceOnly, count: 12 },
    ];
    for i in 0..10 {
        expected.push(TableLine::Name { list: DiffList::SourceOnly, index: i });
    }
    expected.push(TableLine::AndMore(2));
    expected.push(TableLine::ListTitle { list: DiffList::TargetOnly, count: 1 });
    expected.push(TableLine::Name { list: DiffList::TargetOnly, index: 0 });
    expected.push(TableLine::SizeTableTitle);
    expected.push(TableLine::SizeRow(0));
    expected.push(TableLine::ListTitle { list: DiffList::ContentDifferences, count: 2 });
    expected.push(TableLine::Name { list: DiffList::ContentDifferences, index: 0 });
    expected.push(TableLine::Name { list: DiffList::ContentDifferences, index: 1 });
    expected.extend([
        TableLine::SummaryTitle,
        TableLine::IdenticalCount(4),
        TableLine::DifferentCount(2),
        TableLine::SourceOnlyCount(7),
        TableLine::TargetOnlyCount(1),
    ]);
    assert_eq!(lines, expected);
}

#[test]
fn table_hides_content_differences_without_other_differences() {
    let f = FilesReport {
        source_only: vec![],
        target_only: vec![],
        size_differences: vec![],
        content_differences: names(3, "c"),
        metadata_differences: 0,
    };
    let lines = table_lines(&report(false, Some(f)));
    assert_eq!(lines.len(), 2 + 5 + 5);
    assert_eq!(lines[7], TableLine::SummaryTitle);
}

fn outcome(skipped: usize, verified: bool) -> RebuildOutcome {
    RebuildOutcome {
        source_files: 10,
        extracted_files: 10 - skipped,
        skipped_files: skipped,
        target_format: VersionArg::V2,
        verified,
    }
}

#[test]
fn rebuild_report_lines() {
    assert_eq!(
        rebuild_lines(&outcome(0, true), false, true),
        vec![
            RebuildLine::Title,
            RebuildLine::SourceFiles(10),
            RebuildLine::ExtractedFiles(10),
            RebuildLine::TargetFormat(VersionArg::V2),
            RebuildLine::VerificationPassed,
            RebuildLine::Rebuilt,
        ]
    );
    assert_eq!(
        rebuild_lines(&outcome(2, false), false, true),
        vec![
            RebuildLine::Title,
            RebuildLine::SourceFiles(10),
            RebuildLine::ExtractedFiles(8),
            RebuildLine::SkippedFiles(2),
            RebuildLine::TargetFormat(VersionArg::V2),
            RebuildLine::VerificationSkipped,
            RebuildLine::Rebuilt,
        ]
    );
    assert_eq!(
        rebuild_lines(&outcome(0, false), false, false),
        vec![
            RebuildLine::Title,
            RebuildLine::SourceFiles(10),
            RebuildLine::ExtractedFiles(10),
            RebuildLine::TargetFormat(VersionArg::V2),
            RebuildLine::Rebuilt,
        ]
    );
    assert_eq!(
        rebuild_lines(&outcome(0, true), true, true),
        vec![
            RebuildLine::Title,
            RebuildLine::SourceFiles(10),
            RebuildLine::ExtractedFiles(10),
            RebuildLine::TargetFormat(VersionArg::V2),
            RebuildLine::DryRunDone,
        ]
    );
}

#[test]
fn progress_every_hundred_and_last() {
    assert!(progress_is_shown(0, 5));
    assert!(progress_is_shown(100, 250));
    assert!(progress_is_shown(250, 250));
    assert!(!progress_is_shown(99, 250));
    assert!(!progress_is_shown(101, 250));
}
