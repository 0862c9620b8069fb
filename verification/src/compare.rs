//! The two human-readable reports of `compare` (the summary and the
//! tables), computed as sequences of report lines from a comparison result.

use vstd::prelude::*;
use crate::command::VersionArg;

verus! {

/// How two archives' headers compare.
pub struct MetadataReport {
    pub format_version: (VersionArg, VersionArg),
    pub block_size: (u16, u16),
    pub file_count: (usize, usize),
    pub archive_size: (u64, u64),
    pub matches: bool,
}

/// An entry whose size differs between the two archives.
pub struct SizeDiff {
    pub name: String,
    pub source_size: u64,
    pub target_size: u64,
    pub source_compressed: u64,
    pub target_compressed: u64,
}

/// How two archives' entries compare.
pub struct FilesReport {
    pub source_only: Vec<String>,
    pub target_only: Vec<String>,
    pub size_differences: Vec<SizeDiff>,
    pub content_differences: Vec<String>,
    /// The number of entries whose metadata differ.
    pub metadata_differences: usize,
}

/// The counts of a comparison.
pub struct SummaryCounts {
    pub identical_files: usize,
    pub different_files: usize,
    pub source_only_count: usize,
    pub target_only_count: usize,
}

/// The result of comparing a source archive with a target archive.
pub struct ComparisonReport {
    pub identical: bool,
    pub metadata: MetadataReport,
    pub files: Option<FilesReport>,
    pub summary: SummaryCounts,
}

/// The lists of entry names that the reports mention.
#[derive(Clone, Copy, Debug, PartialEq, Eq, Structural)]
pub enum DiffList {
    SourceOnly,
    TargetOnly,
    SizeDifferences,
    ContentDifferences,
    MetadataDifferences,
}

/// A line of the summary report.
#[derive(Clone, Copy, Debug, PartialEq, Eq, Structural)]
pub enum SummaryLine {
    /// The report's title and its underline.
    Title,
    /// The source archive's path.
    SourcePath,
    /// The target archive's path.
    TargetPath,
    Blank,
    /// The archives are identical.
    Identical,
    /// The archives differ.
    Differ,
    /// The heading of the metadata differences.
    MetadataTitle,
    VersionChange(VersionArg, VersionArg),
    BlockSizeChange(u16, u16),
    FileCountChange(usize, usize),
    ArchiveSizeChange(u64, u64),
    /// `count` names of a list, of which the first `shown` are written out.
    Names { list: DiffList, count: usize, shown: usize },
    /// This many further names were not written out.
    AndMore(usize),
    /// The number of entries of a list.
    Count { list: DiffList, count: usize },
    /// The total number of differences.
    Total(usize),
}

/// One element, or none.
pub open spec fn optional<A>(cond: bool, a: A) -> Seq<A> {
    if cond {
        seq![a]
    } else {
        Seq::empty()
    }
}

/// The metadata part of the summary: one line per differing property,
/// under a heading, when the headers do not match.
pub open spec fn summary_metadata(m: MetadataReport) -> Seq<SummaryLine> {
    if m.matches {
        Seq::empty()
    } else {
        seq![SummaryLine::MetadataTitle] + optional(
            m.format_version.0 != m.format_version.1,
            SummaryLine::VersionChange(m.format_version.0, m.format_version.1),
        ) + optional(
            m.block_size.0 != m.block_size.1,
            SummaryLine::BlockSizeChange(m.block_size.0, m.block_size.1),
        ) + optional(
            m.file_count.0 != m.file_count.1,
            SummaryLine::FileCountChange(m.file_count.0, m.file_count.1),
        ) + optional(
            m.archive_size.0 != m.archive_size.1,
            SummaryLine::ArchiveSizeChange(m.archive_size.0, m.archive_size.1),
        ) + seq![SummaryLine::Blank]
    }
}

/// A non-empty name list in the summary: its count and first five names,
/// how many more there are when there are more than five, and a blank line.
pub open spec fn summary_names(list: DiffList, count: nat) -> Seq<SummaryLine> {
    if count == 0 {
        Seq::empty()
    } else {
        seq![
            SummaryLine::Names {
                list,
                count: count as usize,
                shown: if count > 5 {
                    5usize
                } else {
                    count as usize
                },
            },
        ] + optional(count > 5, SummaryLine::AndMore((count - 5) as usize)) + seq![
            SummaryLine::Blank,
        ]
    }
}

/// The entry part of the summary.
pub open spec fn summary_files(f: Option<FilesReport>) -> Seq<SummaryLine> {
    match f {
        None => Seq::empty(),
        Some(f) => summary_names(DiffList::SourceOnly, f.source_only@.len()) + summary_names(
            DiffList::TargetOnly,
            f.target_only@.len(),
        ) + optional(
            f.size_differences@.len() > 0,
            SummaryLine::Count {
                list: DiffList::SizeDifferences,
                count: f.size_differences@.len() as usize,
            },
        ) + optional(
            f.content_differences@.len() > 0,
            SummaryLine::Count {
                list: DiffList::ContentDifferences,
                count: f.content_differences@.len() as usize,
            },
        ) + optional(
            f.metadata_differences > 0,
            SummaryLine::Count {
                list: DiffList::MetadataDifferences,
                count: f.metadata_differences,
            },
        ),
    }
}

/// The total number of differences that the summary reports.
pub open spec fn total_differences(s: SummaryCounts) -> int {
    s.different_files + s.source_only_count + s.target_only_count
}

/// The summary report of a comparison.
pub open spec fn summary_report(r: ComparisonReport) -> Seq<SummaryLine> {
    let head = seq![
        SummaryLine::Title,
        SummaryLine::SourcePath,
        SummaryLine::TargetPath,
        SummaryLine::Blank,
    ];
    if r.identical {
        head.push(SummaryLine::Identical)
    } else {
        head + seq![SummaryLine::Differ, SummaryLine::Blank] + summary_metadata(r.metadata)
            + summary_files(r.files) + seq![
            SummaryLine::Blank,
            SummaryLine::Total(total_differences(r.summary) as usize),
        ]
    }
}

fn push_if(lines: &mut Vec<SummaryLine>, cond: bool, line: SummaryLine)
    ensures
        final(lines)@ == old(lines)@ + optional(cond, line),
{
    if cond {
        lines.push(line);
    }
    proof {
        assert(final(lines)@ =~= old(lines)@ + optional(cond, line));
    }
}

fn summary_names_lines(lines: &mut Vec<SummaryLine>, list: DiffList, count: usize)
    ensures
        final(lines)@ == old(lines)@ + summary_names(list, count as nat),
{
    if count > 0 {
        let shown = if count > 5 {
            5
        } else {
            count
        };
        lines.push(SummaryLine::Names { list, count, shown });
        if count > 5 {
            lines.push(SummaryLine::AndMore(count - 5));
        }
        lines.push(SummaryLine::Blank);
    }
    proof {
        assert(final(lines)@ =~= old(lines)@ + summary_names(list, count as nat));
    }
}

fn summary_metadata_lines(lines: &mut Vec<SummaryLine>, m: &MetadataReport)
    ensures
        final(lines)@ == old(lines)@ + summary_metadata(*m),
{
    let ghost start = lines@;
    if !m.matches {
        lines.push(SummaryLine::MetadataTitle);
        push_if(
            lines,
            m.format_version.0 != m.format_version.1,
            SummaryLine::VersionChange(m.format_version.0, m.format_version.1),
        );
        push_if(
            lines,
            m.block_size.0 != m.block_size.1,
            SummaryLine::BlockSizeChange(m.block_size.0, m.block_size.1),
        );
        push_if(
            lines,
            m.file_count.0 != m.file_count.1,
            SummaryLine::FileCountChange(m.file_count.0, m.file_count.1),
        );
        push_if(
            lines,
            m.archive_size.0 != m.archive_size.1,
            SummaryLine::ArchiveSizeChange(m.archive_size.0, m.archive_size.1),
        );
        lines.push(SummaryLine::Blank);
    }
    proof {
        assert(lines@ =~= start + summary_metadata(*m));
    }
}

fn summary_files_lines(lines: &mut Vec<SummaryLine>, files: &Option<FilesReport>)
    ensures
        final(lines)@ == old(lines)@ + summary_files(*files),
{
    let ghost start = lines@;
    match files {
        None => {},
        Some(f) => {
            summary_names_lines(lines, DiffList::SourceOnly, f.source_only.len());
            summary_names_lines(lines, DiffList::TargetOnly, f.target_only.len());
            push_if(
                lines,
                f.size_differences.len() > 0,
                SummaryLine::Count {
                    list: DiffList::SizeDifferences,
                    count: f.size_differences.len(),
                },
            );
            push_if(
                lines,
                f.content_differences.len() > 0,
                SummaryLine::Count {
                    list: DiffList::ContentDifferences,
                    count: f.content_differences.len(),
                },
            );
            push_if(
                lines,
                f.metadata_differences > 0,
                SummaryLine::Count {
                    list: DiffList::MetadataDifferences,
                    count: f.metadata_differences,
                },
            );
        },
    }
    proof {
        assert(lines@ =~= start + summary_files(*files));
    }
}

/// The lines of the summary report of a comparison.
pub fn summary_lines(r: &ComparisonReport) -> (lines: Vec<SummaryLine>)
    requires
        !r.identical ==> total_differences(r.summary) <= usize::MAX,
    ensures
        lines@ == summary_report(*r),
{
    let mut lines: Vec<SummaryLine> = Vec::new();
    lines.push(SummaryLine::Title);
    lines.push(SummaryLine::SourcePath);
    lines.push(SummaryLine::TargetPath);
    lines.push(SummaryLine::Blank);
    if r.identical {
        lines.push(SummaryLine::Identical);
        proof {
            assert(lines@ =~= summary_report(*r));
        }
        return lines;
    }
    lines.push(SummaryLine::Differ);
    lines.push(SummaryLine::Blank);
    let ghost a = lines@;
    summary_metadata_lines(&mut lines, &r.metadata);
    let ghost b = lines@;
    summary_files_lines(&mut lines, &r.files);
    let ghost c = lines@;
    lines.push(SummaryLine::Blank);
    let s = &r.summary;
    lines.push(SummaryLine::Total(s.different_files + s.source_only_count + s.target_only_count));
    proof {
        assert(c == a + summary_metadata(r.metadata) + summary_files(r.files));
        assert(lines@ =~= summary_report(*r));
    }
    lines
}


/// A line of the table report.
#[derive(Clone, Copy, Debug, PartialEq, Eq, Structural)]
pub enum TableLine {
    /// The report's heading with both (shortened) archive paths.
    Heading,
    /// A rule under the heading.
    Rule,
    /// The archives are identical.
    Identical,
    /// The heading of the metadata table.
    MetadataTitle,
    /// A row of the metadata table: both values and whether they agree.
    VersionRow(VersionArg, VersionArg, bool),
    BlockSizeRow(u16, u16, bool),
    FileCountRow(usize, usize, bool),
    ArchiveSizeRow(u64, u64, bool),
    /// The heading of the entry differences.
    FileDifferencesTitle,
    /// The heading of a name list, with its length.
    ListTitle { list: DiffList, count: usize },
    /// The name at `index` in a list.
    Name { list: DiffList, index: usize },
    /// This many further names were not written out.
    AndMore(usize),
    /// The heading of the size-difference table.
    SizeTableTitle,
    /// The row of the size-difference table for the entry at `index`.
    SizeRow(usize),
    /// This many further size differences were not written out.
    SizeAndMore(usize),
    /// The heading of the counts.
    SummaryTitle,
    IdenticalCount(usize),
    DifferentCount(usize),
    SourceOnlyCount(usize),
    TargetOnlyCount(usize),
}

/// At most ten of `count` items are written out.
pub open spec fn shown_of(count: nat) -> nat {
    if count > 10 {
        10
    } else {
        count
    }
}

/// A non-empty name list in the tables: its heading, its first ten names,
/// and how many more there are when there are more than ten.
pub open spec fn table_names(list: DiffList, count: nat) -> Seq<TableLine> {
    if count == 0 {
        Seq::empty()
    } else {
        seq![TableLine::ListTitle { list, count: count as usize }] + Seq::new(
            shown_of(count),
            |i: int| TableLine::Name { list, index: i as usize },
        ) + optional(count > 10, TableLine::AndMore((count - 10) as usize))
    }
}

/// The size-difference table: its heading, rows for the first ten entries,
/// and how many more there are.
pub open spec fn table_sizes(count: nat) -> Seq<TableLine> {
    if count == 0 {
        Seq::empty()
    } else {
        seq![TableLine::SizeTableTitle] + Seq::new(
            shown_of(count),
            |i: int| TableLine::SizeRow(i as usize),
        ) + optional(count > 10, TableLine::SizeAndMore((count - 10) as usize))
    }
}

/// The entry part of the tables, shown only when some entry is only in one
/// archive or differs in size.
pub open spec fn table_files(f: Option<FilesReport>) -> Seq<TableLine> {
    match f {
        None => Seq::empty(),
        Some(f) => if f.source_only@.len() > 0 || f.target_only@.len() > 0
            || f.size_differences@.len() > 0 {
            seq![TableLine::FileDifferencesTitle] + table_names(
                DiffList::SourceOnly,
                f.source_only@.len(),
            ) + table_names(DiffList::TargetOnly, f.target_only@.len()) + table_sizes(
                f.size_differences@.len(),
            ) + table_names(DiffList::ContentDifferences, f.content_differences@.len())
        } else {
            Seq::empty()
        },
    }
}

/// The metadata table.
pub open spec fn table_metadata(m: MetadataReport) -> Seq<TableLine> {
    seq![
        TableLine::MetadataTitle,
        TableLine::VersionRow(
            m.format_version.0,
            m.format_version.1,
            m.format_version.0 == m.format_version.1,
        ),
        TableLine::BlockSizeRow(m.block_size.0, m.block_size.1, m.block_size.0 == m.block_size.1),
        TableLine::FileCountRow(m.file_count.0, m.file_count.1, m.file_count.0 == m.file_count.1),
        TableLine::ArchiveSizeRow(
            m.archive_size.0,
            m.archive_size.1,
            m.archive_size.0 == m.archive_size.1,
        ),
    ]
}

/// The table report of a comparison.
pub open spec fn table_report(r: ComparisonReport) -> Seq<TableLine> {
    let head = seq![TableLine::Heading, TableLine::Rule];
    if r.identical {
        head.push(TableLine::Identical)
    } else {
        head + table_metadata(r.metadata) + table_files(r.files) + seq![
            TableLine::SummaryTitle,
            TableLine::IdenticalCount(r.summary.identical_files),
            TableLine::DifferentCount(r.summary.different_files),
            TableLine::SourceOnlyCount(r.summary.source_only_count),
            TableLine::TargetOnlyCount(r.summary.target_only_count),
        ]
    }
}

fn table_names_lines(lines: &mut Vec<TableLine>, list: DiffList, count: usize)
    ensures
        final(lines)@ == old(lines)@ + table_names(list, count as nat),
{
    let ghost start = lines@;
    if count > 0 {
        lines.push(TableLine::ListTitle { list, count });
        let shown = if count > 10 {
            10
        } else {
            count
        };
        for i in 0..shown
            invariant
                shown == shown_of(count as nat),
                lines@ =~= start + seq![TableLine::ListTitle { list, count }] + Seq::new(
                    i as nat,
                    |k: int| TableLine::Name { list, index: k as usize },
                ),
        {
            lines.push(TableLine::Name { list, index: i });
        }
        if count > 10 {
            lines.push(TableLine::AndMore(count - 10));
        }
    }
    proof {
        assert(lines@ =~= start + table_names(list, count as nat));
    }
}

fn table_sizes_lines(lines: &mut Vec<TableLine>, count: usize)
    ensures
        final(lines)@ == old(lines)@ + table_sizes(count as nat),
{
    let ghost start = lines@;
    if count > 0 {
        lines.push(TableLine::SizeTableTitle);
        let shown = if count > 10 {
            10
        } else {
            count
        };
        for i in 0..shown
            invariant
                shown == shown_of(count as nat),
                lines@ =~= start + seq![TableLine::SizeTableTitle] + Seq::new(
                    i as nat,
                    |k: int| TableLine::SizeRow(k as usize),
                ),
        {
            lines.push(TableLine::SizeRow(i));
        }
        if count > 10 {
            lines.push(TableLine::SizeAndMore(count - 10));
        }
    }
    proof {
        assert(lines@ =~= start + table_sizes(count as nat));
    }
}

fn table_file_parts(lines: &mut Vec<TableLine>, f: &FilesReport)
    ensures
        final(lines)@ == old(lines)@ + seq![TableLine::FileDifferencesTitle] + table_names(
            DiffList::SourceOnly,
            f.source_only@.len(),
        ) + table_names(DiffList::TargetOnly, f.target_only@.len()) + table_sizes(
            f.size_differences@.len(),
        ) + table_names(DiffList::ContentDifferences, f.content_differences@.len()),
{
    lines.push(TableLine::FileDifferencesTitle);
    table_names_lines(lines, DiffList::SourceOnly, f.source_only.len());
    table_names_lines(lines, DiffList::TargetOnly, f.target_only.len());
    table_sizes_lines(lines, f.size_differences.len());
    table_names_lines(lines, DiffList::ContentDifferences, f.content_differences.len());
}

fn table_files_lines(lines: &mut Vec<TableLine>, files: &Option<FilesReport>)
    ensures
        final(lines)@ == old(lines)@ + table_files(*files),
{
    let ghost start = lines@;
    match files {
        None => {
            assert(lines@ =~= start + table_files(*files));
        },
        Some(f) => {
            if f.source_only.len() > 0 || f.target_only.len() > 0 || f.size_differences.len() > 0 {
                table_file_parts(lines, f);
                assert(lines@ =~= start + table_files(*files));
            } else {
                assert(lines@ =~= start + table_files(*files));
            }
        },
    }
}

/// The lines of the table report of a comparison.
pub fn table_lines(r: &ComparisonReport) -> (lines: Vec<TableLine>)
    ensures
        lines@ == table_report(*r),
{
    let mut lines: Vec<TableLine> = Vec::new();
    lines.push(TableLine::Heading);
    lines.push(TableLine::Rule);
    if r.identical {
        lines.push(TableLine::Identical);
        proof {
            assert(lines@ =~= table_report(*r));
        }
        return lines;
    }
    let m = &r.metadata;
    lines.push(TableLine::MetadataTitle);
    lines.push(
        TableLine::VersionRow(
            m.format_version.0,
            m.format_version.1,
            m.format_version.0 == m.format_version.1,
        ),
    );
    lines.push(
        TableLine::BlockSizeRow(m.block_size.0, m.block_size.1, m.block_size.0 == m.block_size.1),
    );
    lines.push(
        TableLine::FileCountRow(m.file_count.0, m.file_count.1, m.file_count.0 == m.file_count.1),
    );
    lines.push(
        TableLine::ArchiveSizeRow(
            m.archive_size.0,
            m.archive_size.1,
            m.archive_size.0 == m.archive_size.1,
        ),
    );
    let ghost a = lines@;
    table_files_lines(&mut lines, &r.files);
    let ghost b = lines@;
    let s = &r.summary;
    lines.push(TableLine::SummaryTitle);
    lines.push(TableLine::IdenticalCount(s.identical_files));
    lines.push(TableLine::DifferentCount(s.different_files));
    lines.push(TableLine::SourceOnlyCount(s.source_only_count));
    lines.push(TableLine::TargetOnlyCount(s.target_only_count));
    proof {
        assert(a =~= seq![TableLine::Heading, TableLine::Rule] + table_metadata(r.metadata));
        assert(lines@ =~= table_report(*r));
    }
    lines
}

} // verus!

verus! {

proof fn lemma_contains_add<A>(a: Seq<A>, b: Seq<A>, x: A)
    ensures
        (a + b).contains(x) <==> (a.contains(x) || b.contains(x)),
{
    if a.contains(x) {
        let i = choose|i: int| 0 <= i < a.len() && a[i] == x;
        assert((a + b)[i] == x);
    }
    if b.contains(x) {
        let i = choose|i: int| 0 <= i < b.len() && b[i] == x;
        assert((a + b)[a.len() + i] == x);
    }
    if (a + b).contains(x) {
        let i = choose|i: int| 0 <= i < (a + b).len() && (a + b)[i] == x;
        if i < a.len() {
            assert(a[i] == x);
        } else {
            assert(b[i - a.len()] == x);
        }
    }
}

proof fn lemma_contains_optional<A>(cond: bool, y: A, x: A)
    ensures
        optional(cond, y).contains(x) <==> (cond && y == x),
{
    if cond {
        assert(optional(cond, y)[0] == y);
    }
}

/// Whether a summary line reports a change of a header field.
pub open spec fn is_header_change(l: SummaryLine) -> bool {
    l is VersionChange || l is BlockSizeChange || l is FileCountChange || l is ArchiveSizeChange
}

proof fn lemma_summary_names_no_change(list: DiffList, count: nat, x: SummaryLine)
    requires
        is_header_change(x),
    ensures
        !summary_names(list, count).contains(x),
{
    if count > 0 {
        let shown: usize = if count > 5 { 5 } else { count as usize };
        let first = seq![SummaryLine::Names { list, count: count as usize, shown }];
        lemma_contains_add(first + optional(count > 5, SummaryLine::AndMore((count - 5) as usize)), seq![SummaryLine::Blank], x);
        lemma_contains_add(first, optional(count > 5, SummaryLine::AndMore((count - 5) as usize)), x);
        lemma_contains_optional(count > 5, SummaryLine::AndMore((count - 5) as usize), x);
        if first.contains(x) {
            assert(first[0] == x);
        }
        if seq![SummaryLine::Blank].contains(x) {
            assert(seq![SummaryLine::Blank][0] == x);
        }
    }
}

proof fn lemma_summary_files_no_change(f: Option<FilesReport>, x: SummaryLine)
    requires
        is_header_change(x),
    ensures
        !summary_files(f).contains(x),
{
    match f {
        None => {},
        Some(f) => {
            let a = summary_names(DiffList::SourceOnly, f.source_only@.len());
            let b = summary_names(DiffList::TargetOnly, f.target_only@.len());
            let c = optional(
                f.size_differences@.len() > 0,
                SummaryLine::Count {
                    list: DiffList::SizeDifferences,
                    count: f.size_differences@.len() as usize,
                },
            );
            let d = optional(
                f.content_differences@.len() > 0,
                SummaryLine::Count {
                    list: DiffList::ContentDifferences,
                    count: f.content_differences@.len() as usize,
                },
            );
            let e = optional(
                f.metadata_differences > 0,
                SummaryLine::Count {
                    list: DiffList::MetadataDifferences,
                    count: f.metadata_differences,
                },
            );
            lemma_summary_names_no_change(DiffList::SourceOnly, f.source_only@.len(), x);
            lemma_summary_names_no_change(DiffList::TargetOnly, f.target_only@.len(), x);
            lemma_contains_optional(f.size_differences@.len() > 0, c.first(), x);
            lemma_contains_add(a, b, x);
            lemma_contains_add(a + b, c, x);
            lemma_contains_add(a + b + c, d, x);
            lemma_contains_add(a + b + c + d, e, x);
            if c.contains(x) {
                assert(c[0] == x);
            }
            if d.contains(x) {
                assert(d[0] == x);
            }
            if e.contains(x) {
                assert(e[0] == x);
            }
        },
    }
}

/// In the summary of archives that differ, a header field's change is
/// reported exactly when the headers do not match and that field differs,
/// whatever the other fields and the entries say; a change is reported
/// only with the field's own two values.
pub proof fn lemma_summary_reports_header_changes(r: ComparisonReport, x: SummaryLine)
    requires
        !r.identical,
        is_header_change(x),
    ensures
        summary_report(r).contains(x) <==> !r.metadata.matches && (
        (x == SummaryLine::VersionChange(r.metadata.format_version.0, r.metadata.format_version.1)
            && r.metadata.format_version.0 != r.metadata.format_version.1)
        || (x == SummaryLine::BlockSizeChange(r.metadata.block_size.0, r.metadata.block_size.1)
            && r.metadata.block_size.0 != r.metadata.block_size.1)
        || (x == SummaryLine::FileCountChange(r.metadata.file_count.0, r.metadata.file_count.1)
            && r.metadata.file_count.0 != r.metadata.file_count.1)
        || (x == SummaryLine::ArchiveSizeChange(r.metadata.archive_size.0, r.metadata.archive_size.1)
            && r.metadata.archive_size.0 != r.metadata.archive_size.1)),
{
    let m = r.metadata;
    let head = seq![
        SummaryLine::Title,
        SummaryLine::SourcePath,
        SummaryLine::TargetPath,
        SummaryLine::Blank,
    ] + seq![SummaryLine::Differ, SummaryLine::Blank];
    let meta = summary_metadata(m);
    let files = summary_files(r.files);
    let tail = seq![
        SummaryLine::Blank,
        SummaryLine::Total(total_differences(r.summary) as usize),
    ];
    assert(summary_report(r) == head + meta + files + tail);
    lemma_contains_add(head, meta, x);
    lemma_contains_add(head + meta, files, x);
    lemma_contains_add(head + meta + files, tail, x);
    lemma_summary_files_no_change(r.files, x);
    assert(!head.contains(x)) by {
        if head.contains(x) {
            let i = choose|i: int| 0 <= i < head.len() && head[i] == x;
        }
    }
    assert(!tail.contains(x)) by {
        if tail.contains(x) {
            let i = choose|i: int| 0 <= i < tail.len() && tail[i] == x;
        }
    }
    if !m.matches {
        let t = seq![SummaryLine::MetadataTitle];
        let v = optional(
            m.format_version.0 != m.format_version.1,
            SummaryLine::VersionChange(m.format_version.0, m.format_version.1),
        );
        let b = optional(
            m.block_size.0 != m.block_size.1,
            SummaryLine::BlockSizeChange(m.block_size.0, m.block_size.1),
        );
        let c = optional(
            m.file_count.0 != m.file_count.1,
            SummaryLine::FileCountChange(m.file_count.0, m.file_count.1),
        );
        let a = optional(
            m.archive_size.0 != m.archive_size.1,
            SummaryLine::ArchiveSizeChange(m.archive_size.0, m.archive_size.1),
        );
        let bl = seq![SummaryLine::Blank];
        assert(meta == t + v + b + c + a + bl);
        lemma_contains_add(t, v, x);
        lemma_contains_add(t + v, b, x);
        lemma_contains_add(t + v + b, c, x);
        lemma_contains_add(t + v + b + c, a, x);
        lemma_contains_add(t + v + b + c + a, bl, x);
        lemma_contains_optional(
            m.format_version.0 != m.format_version.1,
            SummaryLine::VersionChange(m.format_version.0, m.format_version.1),
            x,
        );
        lemma_contains_optional(
            m.block_size.0 != m.block_size.1,
            SummaryLine::BlockSizeChange(m.block_size.0, m.block_size.1),
            x,
        );
        lemma_contains_optional(
            m.file_count.0 != m.file_count.1,
            SummaryLine::FileCountChange(m.file_count.0, m.file_count.1),
            x,
        );
        lemma_contains_optional(
            m.archive_size.0 != m.archive_size.1,
            SummaryLine::ArchiveSizeChange(m.archive_size.0, m.archive_size.1),
            x,
        );
        if t.contains(x) {
            assert(t[0] == x);
        }
        if bl.contains(x) {
            assert(bl[0] == x);
        }
    } else {
        assert(meta =~= Seq::<SummaryLine>::empty());
    }
}

} // verus!

verus! {

/// The summary of identical archives is the header and the single verdict
/// line, whatever the counts; the summary of differing archives states the
/// verdict that they differ and ends with the total number of differences.
pub proof fn lemma_summary_verdicts(r: ComparisonReport)
    ensures
        r.identical ==> summary_report(r) == seq![
            SummaryLine::Title,
            SummaryLine::SourcePath,
            SummaryLine::TargetPath,
            SummaryLine::Blank,
            SummaryLine::Identical,
        ],
        !r.identical ==> summary_report(r)[4] == SummaryLine::Differ,
        !r.identical ==> summary_report(r).last() == SummaryLine::Total(
            (r.summary.different_files + r.summary.source_only_count
                + r.summary.target_only_count) as usize,
        ),
{
    if r.identical {
        assert(summary_report(r) =~= seq![
            SummaryLine::Title,
            SummaryLine::SourcePath,
            SummaryLine::TargetPath,
            SummaryLine::Blank,
            SummaryLine::Identical,
        ]);
    }
}

/// A non-empty list in the summary gives its full count, writes out its
/// first five names (all of them when there are no more), and says how many
/// more there are exactly when there are more than five.
pub proof fn lemma_summary_names(list: DiffList, count: nat)
    requires
        0 < count <= usize::MAX,
    ensures
        summary_names(list, count)[0] matches SummaryLine::Names { list: l, count: c, shown }
            && l == list && c == count && shown <= 5 && shown <= count && (shown == 5 || shown
            == count),
        summary_names(list, count).contains(SummaryLine::AndMore((count - 5) as usize))
            <==> count > 5,
        summary_names(list, count).last() == SummaryLine::Blank,
{
    let first = seq![
        SummaryLine::Names {
            list,
            count: count as usize,
            shown: if count > 5 {
                5usize
            } else {
                count as usize
            },
        },
    ];
    let more = optional(count > 5, SummaryLine::AndMore((count - 5) as usize));
    let s = summary_names(list, count);
    assert(s == first + more + seq![SummaryLine::Blank]);
    let x = SummaryLine::AndMore((count - 5) as usize);
    lemma_contains_add(first + more, seq![SummaryLine::Blank], x);
    lemma_contains_add(first, more, x);
    lemma_contains_optional(count > 5, x, x);
    if first.contains(x) {
        assert(first[0] == x);
    }
    if seq![SummaryLine::Blank].contains(x) {
        assert(seq![SummaryLine::Blank][0] == x);
    }
}

/// The table report of identical archives is its heading and the verdict;
/// for differing archives the metadata table has one row per header field,
/// holding the source and target values and whether they agree, and the
/// report ends with the four counts.
pub proof fn lemma_table_report(r: ComparisonReport)
    ensures
        r.identical ==> table_report(r) == seq![
            TableLine::Heading,
            TableLine::Rule,
            TableLine::Identical,
        ],
        !r.identical ==> ({
            let t = table_report(r);
            let m = r.metadata;
            let s = r.summary;
            &&& t[2] == TableLine::MetadataTitle
            &&& t[3] matches TableLine::VersionRow(a, b, same) && a == m.format_version.0 && b
                == m.format_version.1 && (same <==> a == b)
            &&& t[4] matches TableLine::BlockSizeRow(a, b, same) && a == m.block_size.0 && b
                == m.block_size.1 && (same <==> a == b)
            &&& t[5] matches TableLine::FileCountRow(a, b, same) && a == m.file_count.0 && b
                == m.file_count.1 && (same <==> a == b)
            &&& t[6] matches TableLine::ArchiveSizeRow(a, b, same) && a == m.archive_size.0 && b
                == m.archive_size.1 && (same <==> a == b)
            &&& t.len() >= 12
            &&& t[t.len() - 5] == TableLine::SummaryTitle
            &&& t[t.len() - 4] == TableLine::IdenticalCount(s.identical_files)
            &&& t[t.len() - 3] == TableLine::DifferentCount(s.different_files)
            &&& t[t.len() - 2] == TableLine::SourceOnlyCount(s.source_only_count)
            &&& t[t.len() - 1] == TableLine::TargetOnlyCount(s.target_only_count)
        }),
{
    if r.identical {
        assert(table_report(r) =~= seq![TableLine::Heading, TableLine::Rule, TableLine::Identical]);
    } else {
        let head = seq![TableLine::Heading, TableLine::Rule] + table_metadata(r.metadata);
        let tail = seq![
            TableLine::SummaryTitle,
            TableLine::IdenticalCount(r.summary.identical_files),
            TableLine::DifferentCount(r.summary.different_files),
            TableLine::SourceOnlyCount(r.summary.source_only_count),
            TableLine::TargetOnlyCount(r.summary.target_only_count),
        ];
        let t = table_report(r);
        assert(t == head + table_files(r.files) + tail);
        let k = t.len() - 5;
        assert(t[k] == tail[0]);
        assert(t[k + 1] == tail[1]);
        assert(t[k + 2] == tail[2]);
        assert(t[k + 3] == tail[3]);
        assert(t[k + 4] == tail[4]);
    }
}

/// A non-empty name list in the tables writes out the names at positions
/// below ten, and only those, and says how many more there are exactly when
/// there are more than ten.
pub proof fn lemma_table_names(list: DiffList, count: nat, index: usize)
    requires
        0 < count <= usize::MAX,
    ensures
        table_names(list, count)[0] == (TableLine::ListTitle { list, count: count as usize }),
        table_names(list, count).contains((TableLine::Name { list, index })) <==> (index < count
            && index < 10),
        table_names(list, count).contains(TableLine::AndMore((count - 10) as usize)) <==> count
            > 10,
{
    let shown = shown_of(count);
    let title = seq![TableLine::ListTitle { list, count: count as usize }];
    let names = Seq::new(shown, |i: int| TableLine::Name { list, index: i as usize });
    let more = optional(count > 10, TableLine::AndMore((count - 10) as usize));
    let t = table_names(list, count);
    assert(t == title + names + more);
    let x = TableLine::Name { list, index };
    let y = TableLine::AndMore((count - 10) as usize);
    lemma_table_contains_add(title + names, more, x);
    lemma_table_contains_add(title, names, x);
    lemma_table_contains_add(title + names, more, y);
    lemma_table_contains_add(title, names, y);
    lemma_contains_optional(count > 10, y, x);
    lemma_contains_optional(count > 10, y, y);
    if index < shown {
        assert(names[index as int] == x);
    }
    if names.contains(x) {
        let i = choose|i: int| 0 <= i < names.len() && names[i] == x;
        assert(i as usize == index);
    }
    if names.contains(y) {
        let i = choose|i: int| 0 <= i < names.len() && names[i] == y;
    }
    if title.contains(x) {
        assert(title[0] == x);
    }
    if title.contains(y) {
        assert(title[0] == y);
    }
}

proof fn lemma_table_contains_add(a: Seq<TableLine>, b: Seq<TableLine>, x: TableLine)
    ensures
        (a + b).contains(x) <==> (a.contains(x) || b.contains(x)),
{
    lemma_contains_add(a, b, x);
}

} // verus!
