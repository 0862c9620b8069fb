//! What `rebuild` reports, and when it reports progress.

use vstd::prelude::*;
use crate::command::VersionArg;
use crate::compare::optional;

verus! {

/// What `wow_mpq::rebuild_archive` reports of a finished rebuild.
pub struct RebuildOutcome {
    pub source_files: usize,
    pub extracted_files: usize,
    pub skipped_files: usize,
    pub target_format: VersionArg,
    pub verified: bool,
}

/// A line of the rebuild report.
#[derive(Clone, Copy, Debug, PartialEq, Eq, Structural)]
pub enum RebuildLine {
    /// The report's title and its underline.
    Title,
    SourceFiles(usize),
    ExtractedFiles(usize),
    SkippedFiles(usize),
    TargetFormat(VersionArg),
    /// A dry run ended; nothing was written.
    DryRunDone,
    VerificationPassed,
    VerificationSkipped,
    /// The target archive was written.
    Rebuilt,
}

/// The report after a rebuild: the counts (skipped files only when some
/// were skipped), the target format, then either the dry-run notice or the
/// verification status (skipped only when a verification was asked for and
/// did not happen) and the success line.
pub open spec fn rebuild_report(o: RebuildOutcome, list_only: bool, verify: bool) -> Seq<
    RebuildLine,
> {
    seq![
        RebuildLine::Title,
        RebuildLine::SourceFiles(o.source_files),
        RebuildLine::ExtractedFiles(o.extracted_files),
    ] + optional(o.skipped_files > 0, RebuildLine::SkippedFiles(o.skipped_files)) + seq![
        RebuildLine::TargetFormat(o.target_format),
    ] + if list_only {
        seq![RebuildLine::DryRunDone]
    } else if o.verified {
        seq![RebuildLine::VerificationPassed, RebuildLine::Rebuilt]
    } else {
        optional(verify, RebuildLine::VerificationSkipped).push(RebuildLine::Rebuilt)
    }
}

/// The lines of the report after a rebuild.
pub fn rebuild_lines(o: &RebuildOutcome, list_only: bool, verify: bool) -> (lines: Vec<RebuildLine>)
    ensures
        lines@ == rebuild_report(*o, list_only, verify),
{
    let mut lines: Vec<RebuildLine> = Vec::new();
    lines.push(RebuildLine::Title);
    lines.push(RebuildLine::SourceFiles(o.source_files));
    lines.push(RebuildLine::ExtractedFiles(o.extracted_files));
    if o.skipped_files > 0 {
        lines.push(RebuildLine::SkippedFiles(o.skipped_files));
    }
    lines.push(RebuildLine::TargetFormat(o.target_format));
    if list_only {
        lines.push(RebuildLine::DryRunDone);
    } else {
        if o.verified {
            lines.push(RebuildLine::VerificationPassed);
        } else if verify {
            lines.push(RebuildLine::VerificationSkipped);
        }
        lines.push(RebuildLine::Rebuilt);
    }
    proof {
        assert(lines@ =~= rebuild_report(*o, list_only, verify));
    }
    lines
}

/// Whether progress is reported for the `current`-th of `total` files:
/// every hundredth file, and the last one.
pub fn progress_is_shown(current: usize, total: usize) -> (r: bool)
    ensures
        r == (current % 100 == 0 || current == total),
{
    current % 100 == 0 || current == total
}

} // verus!

verus! {

proof fn lemma_contains_concat<A>(a: Seq<A>, b: Seq<A>, x: A)
    ensures
        (a + b).contains(x) <==> (a.contains(x) || b.contains(x)),
{
    if a.contains(x) {
        let i = choose|i: int| 0 <= i < a.len() && a[i] == x;
        assert((a + b)[i] == x);
    }
    if b.contains(x) {
        let i = choose|i: int| 0 <= i < b.len() && b[i] == x;
        assert((a + b)[a.len() + i] == x);
    }
    if (a + b).contains(x) {
        let i = choose|i: int| 0 <= i < (a + b).len() && (a + b)[i] == x;
        if i < a.len() {
            assert(a[i] == x);
        } else {
            assert(b[i - a.len()] == x);
        }
    }
}

/// The rebuild report, whatever the outcome: it opens with the title and
/// the source and extracted counts, names the skipped files exactly when
/// some were skipped, and gives the target format. A dry run ends with the
/// dry-run notice and never claims a rebuilt archive or a verification; a
/// real run ends with the success line, reports a passed verification
/// exactly when one happened, and a skipped one exactly when one was asked
/// for and did not happen.
pub proof fn lemma_rebuild_report(o: RebuildOutcome, list_only: bool, verify: bool)
    ensures
        rebuild_report(o, list_only, verify)[0] == RebuildLine::Title,
        rebuild_report(o, list_only, verify)[1] == RebuildLine::SourceFiles(o.source_files),
        rebuild_report(o, list_only, verify)[2] == RebuildLine::ExtractedFiles(o.extracted_files),
        rebuild_report(o, list_only, verify).contains(RebuildLine::SkippedFiles(o.skipped_files))
            <==> o.skipped_files > 0,
        rebuild_report(o, list_only, verify).contains(RebuildLine::TargetFormat(o.target_format)),
        list_only ==> rebuild_report(o, list_only, verify).last() == RebuildLine::DryRunDone,
        list_only ==> !rebuild_report(o, list_only, verify).contains(RebuildLine::Rebuilt),
        list_only ==> !rebuild_report(o, list_only, verify).contains(
            RebuildLine::VerificationPassed,
        ),
        list_only ==> !rebuild_report(o, list_only, verify).contains(
            RebuildLine::VerificationSkipped,
        ),
        !list_only ==> rebuild_report(o, list_only, verify).last() == RebuildLine::Rebuilt,
        !list_only ==> !rebuild_report(o, list_only, verify).contains(RebuildLine::DryRunDone),
        !list_only ==> (rebuild_report(o, list_only, verify).contains(
            RebuildLine::VerificationPassed,
        ) <==> o.verified),
        !list_only ==> (rebuild_report(o, list_only, verify).contains(
            RebuildLine::VerificationSkipped,
        ) <==> (!o.verified && verify)),
{
    let a = seq![
        RebuildLine::Title,
        RebuildLine::SourceFiles(o.source_files),
        RebuildLine::ExtractedFiles(o.extracted_files),
    ];
    let s = optional(o.skipped_files > 0, RebuildLine::SkippedFiles(o.skipped_files));
    let t = seq![RebuildLine::TargetFormat(o.target_format)];
    let e = if list_only {
        seq![RebuildLine::DryRunDone]
    } else if o.verified {
        seq![RebuildLine::VerificationPassed, RebuildLine::Rebuilt]
    } else {
        optional(verify, RebuildLine::VerificationSkipped).push(RebuildLine::Rebuilt)
    };
    let r = rebuild_report(o, list_only, verify);
    assert(r == a + s + t + e);
    assert(t[0] == RebuildLine::TargetFormat(o.target_format));
    assert forall|x: RebuildLine| #[trigger] r.contains(x) <==> (a.contains(x) || s.contains(x)
        || t.contains(x) || e.contains(x)) by {
        lemma_contains_concat(a, s, x);
        lemma_contains_concat(a + s, t, x);
        lemma_contains_concat(a + s + t, e, x);
    }
    assert forall|x: RebuildLine| #[trigger] a.contains(x) <==> (x == RebuildLine::Title || x
        == RebuildLine::SourceFiles(o.source_files) || x == RebuildLine::ExtractedFiles(
        o.extracted_files,
    )) by {
        if x == RebuildLine::SourceFiles(o.source_files) {
            assert(a[1] == x);
        }
        if x == RebuildLine::ExtractedFiles(o.extracted_files) {
            assert(a[2] == x);
        }
        if x == RebuildLine::Title {
            assert(a[0] == x);
        }
    }
    assert forall|x: RebuildLine| #[trigger] s.contains(x) <==> (o.skipped_files > 0 && x
        == RebuildLine::SkippedFiles(o.skipped_files)) by {
        if o.skipped_files > 0 {
            assert(s[0] == RebuildLine::SkippedFiles(o.skipped_files));
        }
    }
    assert forall|x: RebuildLine| #[trigger] t.contains(x) <==> x == RebuildLine::TargetFormat(
        o.target_format,
    ) by {
        if x == RebuildLine::TargetFormat(o.target_format) {
            assert(t[0] == x);
        }
    }
    assert forall|x: RebuildLine| #[trigger] e.contains(x) <==> (if list_only {
        x == RebuildLine::DryRunDone
    } else {
        x == RebuildLine::Rebuilt || (o.verified && x == RebuildLine::VerificationPassed) || (
        !o.verified && verify && x == RebuildLine::VerificationSkipped)
    }) by {
        if list_only {
            if x == RebuildLine::DryRunDone {
                assert(e[0] == x);
            }
        } else if o.verified {
            if x == RebuildLine::VerificationPassed {
                assert(e[0] == x);
            }
            if x == RebuildLine::Rebuilt {
                assert(e[1] == x);
            }
        } else {
            if x == RebuildLine::Rebuilt {
                assert(e[e.len() - 1] == x);
            }
            if verify && x == RebuildLine::VerificationSkipped {
                assert(e[0] == x);
            }
            if e.contains(x) {
                let i = choose|i: int| 0 <= i < e.len() && e[i] == x;
                if i < e.len() - 1 {
                    assert(optional(verify, RebuildLine::VerificationSkipped)[i] == x);
                }
            }
        }
    }
    assert(r.contains(RebuildLine::TargetFormat(o.target_format)));
    assert(r.contains(RebuildLine::SkippedFiles(o.skipped_files)) <==> o.skipped_files > 0);
    assert(r.contains(RebuildLine::Rebuilt) <==> !list_only);
    assert(r.contains(RebuildLine::DryRunDone) <==> list_only);
    assert(r.contains(RebuildLine::VerificationPassed) <==> (!list_only && o.verified));
    assert(r.contains(RebuildLine::VerificationSkipped) <==> (!list_only && !o.verified && verify));
}

} // verus!
