//! Evidence guard for diagnosis reports.
//!
//! - [`augment_alert_context`] appends the table of tool evidence and the
//!   report rules to an alert context before the analysis runs.
//! - [`constrain_report`] reads the `[evidence: ev-xxx]` citations of a report,
//!   checks them against the recorded evidence, and appends a
//!   "## 证据校验" section; a section left by an earlier run is removed first.
use vstd::prelude::*;

use crate::model::DiagnosisEvidence;
use crate::text::{
    append_chars, append_str, chars_of, contains, contains_chars, find_from, find_idx, first_word,
    is_blank, is_blank_str, join, join_chars, char_views, lemma_find_idx_bounds, replace,
    replace_chars, slice_chars, split_lines, split_words, str_eq, string_of, trim, trim_bounds,
    trim_chars, trim_end, trim_end_len, words, starts_with, ends_with, matches_at, chars_ends_with,
    lines, chars_eq, lemma_join_push,
};

verus! {

/// Longest summary shown in a cell of the evidence table.
pub const SUMMARY_LIMIT: usize = 180;

// ---------------------------------------------------------------------------
// Which evidence counts
// ---------------------------------------------------------------------------

/// Evidence of a tool call: typed `tool_call`, or naming a tool.
pub open spec fn is_tool_evidence(e: DiagnosisEvidence) -> bool {
    e.evidence_type@ == "tool_call"@ || !is_blank(e.tool_name@)
}

/// Tool evidence that can back a conclusion: it succeeded and its
/// dependency was not cut off.
pub open spec fn is_usable(e: DiagnosisEvidence) -> bool {
    is_tool_evidence(e) && e.success && e.error_code@ != "CIRCUIT_OPEN"@
}

/// Tool evidence of a call that failed or was cut off.
pub open spec fn is_failed(e: DiagnosisEvidence) -> bool {
    is_tool_evidence(e) && (!e.success || e.error_code@ == "CIRCUIT_OPEN"@)
}

/// The items of `ev` that satisfy `f`, in order.
pub open spec fn keep(ev: Seq<DiagnosisEvidence>, f: spec_fn(DiagnosisEvidence) -> bool) -> Seq<
    DiagnosisEvidence,
>
    decreases ev.len(),
{
    if ev.len() == 0 {
        Seq::empty()
    } else {
        let p = keep(ev.drop_last(), f);
        if f(ev.last()) {
            p.push(ev.last())
        } else {
            p
        }
    }
}

pub open spec fn tool_evidence_spec(ev: Seq<DiagnosisEvidence>) -> Seq<DiagnosisEvidence> {
    keep(ev, |e: DiagnosisEvidence| is_tool_evidence(e))
}

pub open spec fn usable_evidence_spec(ev: Seq<DiagnosisEvidence>) -> Seq<DiagnosisEvidence> {
    keep(ev, |e: DiagnosisEvidence| is_usable(e))
}

pub open spec fn failed_evidence_spec(ev: Seq<DiagnosisEvidence>) -> Seq<DiagnosisEvidence> {
    keep(ev, |e: DiagnosisEvidence| is_failed(e))
}

pub proof fn lemma_keep_members(ev: Seq<DiagnosisEvidence>, f: spec_fn(DiagnosisEvidence) -> bool)
    ensures
        forall|i: int| 0 <= i < keep(ev, f).len() ==> f(#[trigger] keep(ev, f)[i]),
        forall|i: int|
            0 <= i < keep(ev, f).len() ==> exists|j: int|
                0 <= j < ev.len() && ev[j] == #[trigger] keep(ev, f)[i],
        forall|j: int| 0 <= j < ev.len() && f(ev[j]) ==> keep(ev, f).contains(#[trigger] ev[j]),
    decreases ev.len(),
{
    if ev.len() > 0 {
        lemma_keep_members(ev.drop_last(), f);
        let p = keep(ev.drop_last(), f);
        assert forall|i: int| 0 <= i < keep(ev, f).len() implies exists|j: int|
            0 <= j < ev.len() && ev[j] == #[trigger] keep(ev, f)[i] by {
            if i < p.len() {
                let j = choose|j: int| 0 <= j < ev.drop_last().len() && ev.drop_last()[j] == p[i];
                assert(ev[j] == keep(ev, f)[i]);
            } else {
                assert(ev[ev.len() - 1] == keep(ev, f)[i]);
            }
        }
        assert forall|j: int| 0 <= j < ev.len() && f(ev[j]) implies keep(ev, f).contains(
            #[trigger] ev[j],
        ) by {
            if j < ev.len() - 1 {
                assert(ev.drop_last()[j] == ev[j]);
                let k = choose|k: int| 0 <= k < p.len() && p[k] == ev[j];
                assert(keep(ev, f)[k] == ev[j]);
            } else {
                assert(keep(ev, f)[keep(ev, f).len() - 1] == ev[j]);
            }
        }
    }
}

pub fn is_tool_evidence_exec(e: &DiagnosisEvidence) -> (r: bool)
    ensures
        r == is_tool_evidence(*e),
{
    str_eq(e.evidence_type.as_str(), "tool_call") || !is_blank_str(e.tool_name.as_str())
}

pub fn is_usable_exec(e: &DiagnosisEvidence) -> (r: bool)
    ensures
        r == is_usable(*e),
{
    is_tool_evidence_exec(e) && e.success && !str_eq(e.error_code.as_str(), "CIRCUIT_OPEN")
}

pub fn is_failed_exec(e: &DiagnosisEvidence) -> (r: bool)
    ensures
        r == is_failed(*e),
{
    is_tool_evidence_exec(e) && (!e.success || str_eq(e.error_code.as_str(), "CIRCUIT_OPEN"))
}

/// Which of the three selections to make.
pub enum Selection {
    Tool,
    Usable,
    Failed,
}

pub open spec fn selection_pred(which: Selection) -> spec_fn(DiagnosisEvidence) -> bool {
    match which {
        Selection::Tool => |e: DiagnosisEvidence| is_tool_evidence(e),
        Selection::Usable => |e: DiagnosisEvidence| is_usable(e),
        Selection::Failed => |e: DiagnosisEvidence| is_failed(e),
    }
}

fn select_evidence(evidence: &[DiagnosisEvidence], which: &Selection) -> (r: Vec<DiagnosisEvidence>)
    ensures
        r@ == keep(evidence@, selection_pred(*which)),
{
    let ghost f = selection_pred(*which);
    let mut out: Vec<DiagnosisEvidence> = Vec::new();
    let mut i: usize = 0;
    while i < evidence.len()
        invariant
            i <= evidence.len(),
            f == selection_pred(*which),
            out@ == keep(evidence@.take(i as int), f),
        decreases evidence.len() - i,
    {
        let e = &evidence[i];
        let chosen = match which {
            Selection::Tool => is_tool_evidence_exec(e),
            Selection::Usable => is_usable_exec(e),
            Selection::Failed => is_failed_exec(e),
        };
        assert(evidence@.take(i + 1).drop_last() =~= evidence@.take(i as int));
        assert(evidence@.take(i + 1).last() == evidence@[i as int]);
        if chosen {
            out.push(e.clone());
        }
        i = i + 1;
    }
    assert(evidence@.take(evidence.len() as int) =~= evidence@);
    out
}

/// Tool evidence of the run, in order.
pub fn tool_evidence(evidence: &[DiagnosisEvidence]) -> (r: Vec<DiagnosisEvidence>)
    ensures
        r@ == tool_evidence_spec(evidence@),
{
    select_evidence(evidence, &Selection::Tool)
}

/// Tool evidence that succeeded and was not cut off, in order.
pub fn usable_tool_evidence(evidence: &[DiagnosisEvidence]) -> (r: Vec<DiagnosisEvidence>)
    ensures
        r@ == usable_evidence_spec(evidence@),
{
    select_evidence(evidence, &Selection::Usable)
}

/// Tool evidence that failed or was cut off, in order.
pub fn failed_tool_evidence(evidence: &[DiagnosisEvidence]) -> (r: Vec<DiagnosisEvidence>)
    ensures
        r@ == failed_evidence_spec(evidence@),
{
    select_evidence(evidence, &Selection::Failed)
}

// ---------------------------------------------------------------------------
// Cells and the evidence table
// ---------------------------------------------------------------------------

/// A table cell: blank text becomes empty, `|` is escaped and line breaks
/// become spaces.
pub open spec fn cell_spec(value: Seq<char>) -> Seq<char> {
    let v = if is_blank(value) {
        Seq::empty()
    } else {
        value
    };
    replace(replace(v, seq!['|'], seq!['\\', '|']), seq!['\n'], seq![' '])
}

pub fn cell(value: &str) -> (r: Vec<char>)
    ensures
        r@ == cell_spec(value@),
{
    let v = if is_blank_str(value) {
        Vec::new()
    } else {
        chars_of(value)
    };
    assert(v@ == if is_blank(value@) {
        Seq::<char>::empty()
    } else {
        value@
    });
    let bar = vec!['|'];
    let escaped_bar = vec!['\\', '|'];
    let newline = vec!['\n'];
    let space = vec![' '];
    assert(bar@ =~= seq!['|']);
    assert(escaped_bar@ =~= seq!['\\', '|']);
    assert(newline@ =~= seq!['\n']);
    assert(space@ =~= seq![' ']);
    let a = replace_chars(&v, &bar, &escaped_bar);
    replace_chars(&a, &newline, &space)
}

/// Whitespace runs collapsed to single spaces, then cut to `limit` characters
/// with a closing ellipsis.
pub open spec fn compact_spec(value: Seq<char>, limit: nat) -> Seq<char> {
    let normalized = join(words(value), seq![' ']);
    if normalized.len() <= limit {
        normalized
    } else {
        let cut = if limit >= 1 {
            limit - 1
        } else {
            0
        };
        normalized.take(cut as int).push('…')
    }
}

pub fn compact(value: &str, limit: usize) -> (r: Vec<char>)
    ensures
        r@ == compact_spec(value@, limit as nat),
{
    let v = chars_of(value);
    let ws = split_words(&v);
    let space = vec![' '];
    assert(space@ =~= seq![' ']);
    let normalized = join_chars(&ws, &space);
    if normalized.len() <= limit {
        return normalized;
    }
    let cut = if limit >= 1 {
        limit - 1
    } else {
        0
    };
    let mut r = slice_chars(&normalized, 0, cut);
    assert(normalized@.subrange(0, cut as int) =~= normalized@.take(cut as int));
    r.push('…');
    r
}

/// One row of the table of usable evidence.
pub open spec fn usable_row(e: DiagnosisEvidence) -> Seq<char> {
    "| "@ + cell_spec(e.id@) + " | "@ + cell_spec(e.evidence_type@) + " | "@ + cell_spec(
        e.tool_name@,
    ) + " | "@ + cell_spec(e.time_range@) + " | success | "@ + cell_spec(
        compact_spec(e.summary@, SUMMARY_LIMIT as nat),
    ) + " |\n"@
}

/// One row of the table of failed evidence.
pub open spec fn failed_row(e: DiagnosisEvidence) -> Seq<char> {
    "| "@ + cell_spec(e.id@) + " | "@ + cell_spec(e.tool_name@) + " | failed | "@ + cell_spec(
        e.error_code@,
    ) + " | "@ + cell_spec(compact_spec(e.summary@, SUMMARY_LIMIT as nat)) + " |\n"@
}

/// The rows for a sequence of evidence, one after another.
pub open spec fn rows(ev: Seq<DiagnosisEvidence>, row: spec_fn(DiagnosisEvidence) -> Seq<char>) -> Seq<
    char,
>
    decreases ev.len(),
{
    if ev.len() == 0 {
        Seq::empty()
    } else {
        rows(ev.drop_last(), row) + row(ev.last())
    }
}

pub const USABLE_TABLE_HEAD: &'static str = "## 可用工具证据表（仅成功）\n| Evidence ID | 类型 | 工具 | 时间范围 | 状态 | 摘要 |\n|---|---|---|---|---|---|\n";

pub const FAILED_TABLE_HEAD: &'static str = "## 失败工具证据说明\n| Evidence ID | 工具 | 状态 | 错误码 | 摘要 |\n|---|---|---|---|---|\n";

/// The two Markdown tables of tool evidence, before trimming.
pub open spec fn evidence_tables(ev: Seq<DiagnosisEvidence>) -> Seq<char> {
    let usable = usable_evidence_spec(ev);
    let failed = failed_evidence_spec(ev);
    let first = if usable.len() > 0 {
        USABLE_TABLE_HEAD@ + rows(usable, |e: DiagnosisEvidence| usable_row(e))
    } else {
        Seq::empty()
    };
    if failed.len() > 0 {
        let sep = if first.len() > 0 {
            seq!['\n']
        } else {
            Seq::empty()
        };
        first + sep + FAILED_TABLE_HEAD@ + rows(failed, |e: DiagnosisEvidence| failed_row(e))
    } else {
        first
    }
}

/// The evidence table section: empty when there is no tool evidence.
pub open spec fn evidence_table_spec(ev: Seq<DiagnosisEvidence>) -> Seq<char> {
    if usable_evidence_spec(ev).len() == 0 && failed_evidence_spec(ev).len() == 0 {
        Seq::empty()
    } else {
        trim(evidence_tables(ev))
    }
}

fn push_row(out: &mut Vec<char>, e: &DiagnosisEvidence, usable: bool)
    ensures
        final(out)@ == old(out)@ + if usable {
            usable_row(*e)
        } else {
            failed_row(*e)
        },
{
    let ghost start = out@;
    append_str(out, "| ");
    append_chars(out, &cell(e.id.as_str()));
    if usable {
        append_str(out, " | ");
        append_chars(out, &cell(e.evidence_type.as_str()));
        append_str(out, " | ");
        append_chars(out, &cell(e.tool_name.as_str()));
        append_str(out, " | ");
        append_chars(out, &cell(e.time_range.as_str()));
        append_str(out, " | success | ");
    } else {
        append_str(out, " | ");
        append_chars(out, &cell(e.tool_name.as_str()));
        append_str(out, " | failed | ");
        append_chars(out, &cell(e.error_code.as_str()));
        append_str(out, " | ");
    }
    let summary = compact(e.summary.as_str(), SUMMARY_LIMIT);
    let summary_cell = cell(string_of(&summary).as_str());
    append_chars(out, &summary_cell);
    append_str(out, " |\n");
    proof {
        if usable {
            assert(out@ =~= start + usable_row(*e));
        } else {
            assert(out@ =~= start + failed_row(*e));
        }
    }
}

fn push_rows(out: &mut Vec<char>, ev: &Vec<DiagnosisEvidence>, usable: bool)
    ensures
        final(out)@ == old(out)@ + if usable {
            rows(ev@, |e: DiagnosisEvidence| usable_row(e))
        } else {
            rows(ev@, |e: DiagnosisEvidence| failed_row(e))
        },
{
    let ghost f = if usable {
        |e: DiagnosisEvidence| usable_row(e)
    } else {
        |e: DiagnosisEvidence| failed_row(e)
    };
    let mut i: usize = 0;
    while i < ev.len()
        invariant
            i <= ev.len(),
            f == if usable {
                |e: DiagnosisEvidence| usable_row(e)
            } else {
                |e: DiagnosisEvidence| failed_row(e)
            },
            out@ == old(out)@ + rows(ev@.take(i as int), f),
        decreases ev.len() - i,
    {
        push_row(out, &ev[i], usable);
        assert(ev@.take(i + 1).drop_last() =~= ev@.take(i as int));
        assert(ev@.take(i + 1).last() == ev@[i as int]);
        assert(out@ =~= old(out)@ + rows(ev@.take(i + 1), f));
        i = i + 1;
    }
    assert(ev@.take(ev.len() as int) =~= ev@);
}

/// The tables of usable and of failed tool evidence, or nothing when there
/// is no tool evidence.
pub fn build_evidence_table(evidence: &[DiagnosisEvidence]) -> (r: String)
    ensures
        r@ == evidence_table_spec(evidence@),
{
    let usable = usable_tool_evidence(evidence);
    let failed = failed_tool_evidence(evidence);
    if usable.len() == 0 && failed.len() == 0 {
        return String::new();
    }
    let mut out: Vec<char> = Vec::new();
    if usable.len() > 0 {
        append_str(&mut out, USABLE_TABLE_HEAD);
        push_rows(&mut out, &usable, true);
    }
    let ghost first = out@;
    if failed.len() > 0 {
        if out.len() > 0 {
            out.push('\n');
        }
        append_str(&mut out, FAILED_TABLE_HEAD);
        push_rows(&mut out, &failed, false);
    }
    proof {
        if failed@.len() > 0 {
            if first.len() > 0 {
                assert(out@ =~= first + seq!['\n'] + FAILED_TABLE_HEAD@ + rows(
                    failed@,
                    |e: DiagnosisEvidence| failed_row(e),
                ));
            } else {
                assert(out@ =~= first + Seq::<char>::empty() + FAILED_TABLE_HEAD@ + rows(
                    failed@,
                    |e: DiagnosisEvidence| failed_row(e),
                ));
            }
        }
        assert(out@ == evidence_tables(evidence@));
    }
    let t = trim_chars(&out);
    string_of(&t)
}

pub const REPORT_RULES: &'static str = "## 报告证据约束\n- 最终报告中的每个根因、症状和处理建议必须引用上方成功工具 Evidence ID，格式为 [evidence: ev-xxxx]。\n- 资源类结论（CPU、内存、错误率、P99、重启）必须引用 queryMetricTrend 证据。\n- 日志、异常、GC/Full GC、OOM 结论必须引用 queryLogs 或明确包含该信号的 JVM/日志证据。\n- 禁止使用未出现在成功证据表中的 evidence id；失败或熔断 evidence 只能说明证据缺失，不能支撑事实结论。\n- 最终报告需要包含“置信度”和“缺失证据”判断。";

/// The rules every report must follow.
pub fn report_rules() -> (r: &'static str)
    ensures
        r@ == REPORT_RULES@,
{
    REPORT_RULES
}

/// The alert context, trimmed, followed by the evidence table (if any) and
/// the report rules.
pub open spec fn augment_spec(alert_context: Seq<char>, ev: Seq<DiagnosisEvidence>) -> Seq<char> {
    let table = evidence_table_spec(ev);
    let with_table = if table.len() > 0 {
        trim(alert_context) + "\n\n"@ + table
    } else {
        trim(alert_context)
    };
    with_table + "\n\n"@ + REPORT_RULES@
}

pub fn augment_alert_context(alert_context: &str, evidence: &[DiagnosisEvidence]) -> (r: String)
    ensures
        r@ == augment_spec(alert_context@, evidence@),
{
    let mut builder = crate::text::trim_str(alert_context);
    let table = build_evidence_table(evidence);
    if table.unicode_len() > 0 {
        builder.append("\n\n");
        builder.append(table.as_str());
    }
    builder.append("\n\n");
    builder.append(report_rules());
    builder
}

// ---------------------------------------------------------------------------
// Citations
// ---------------------------------------------------------------------------

/// The marker that opens a citation.
pub const CITATION_MARKER: &'static str = "[evidence:";

/// The ids cited in `rest`, appended to `acc`: for each `[evidence:` marker
/// followed later by `]`, the first word between them, unless empty or
/// already collected; scanning stops at the first marker without `]`.
pub open spec fn cited_ids_from(rest: Seq<char>, acc: Seq<Seq<char>>) -> Seq<Seq<char>>
    decreases rest.len(),
{
    match find_idx(rest, CITATION_MARKER@, 0) {
        None => acc,
        Some(p) => {
            let r2 = rest.skip(p + CITATION_MARKER@.len());
            match find_idx(r2, seq![']'], 0) {
                None => acc,
                Some(e) => {
                    proof {
                        lemma_find_idx_bounds(rest, CITATION_MARKER@, 0);
                        lemma_find_idx_bounds(r2, seq![']'], 0);
                    }
                    let id = first_word(r2.take(e));
                    let acc2 = if id.len() > 0 && !acc.contains(id) {
                        acc.push(id)
                    } else {
                        acc
                    };
                    cited_ids_from(r2.skip(e + 1), acc2)
                },
            }
        },
    }
}

/// The ids a report cites, each once, in order of first citation.
pub open spec fn cited_ids(report: Seq<char>) -> Seq<Seq<char>> {
    cited_ids_from(report, Seq::empty())
}

/// Whether `x` is one of `ids`.
fn contains_id(ids: &Vec<Vec<char>>, x: &Vec<char>) -> (r: bool)
    ensures
        r == char_views(ids@).contains(x@),
{
    let mut i: usize = 0;
    while i < ids.len()
        invariant
            i <= ids.len(),
            forall|j: int| 0 <= j < i ==> ids@[j]@ != x@,
        decreases ids.len() - i,
    {
        if chars_eq(&ids[i], x) {
            assert(char_views(ids@)[i as int] == x@);
            return true;
        }
        i = i + 1;
    }
    proof {
        if char_views(ids@).contains(x@) {
            let j = choose|j: int| 0 <= j < char_views(ids@).len() && char_views(ids@)[j] == x@;
            assert(ids@[j]@ == x@);
        }
    }
    false
}

/// The ids cited by `report`.
pub fn extract_evidence_ids(report: &Vec<char>) -> (r: Vec<Vec<char>>)
    ensures
        char_views(r@) == cited_ids(report@),
{
    let marker = chars_of(CITATION_MARKER);
    let close = vec![']'];
    assert(close@ =~= seq![']']);
    let mut ids: Vec<Vec<char>> = Vec::new();
    let mut start: usize = 0;
    assert(report@.skip(0) =~= report@);
    assert(char_views(ids@) =~= Seq::<Seq<char>>::empty());
    while start <= report.len()
        invariant
            start <= report.len() + 1,
            start <= report.len() ==> cited_ids_from(report@.skip(start as int), char_views(ids@))
                == cited_ids(report@),
            start > report.len() ==> char_views(ids@) == cited_ids(report@),
            marker@ == CITATION_MARKER@,
            close@ == seq![']'],
        decreases report.len() + 1 - start,
    {
        let ghost rest = report@.skip(start as int);
        let pos = find_from(report, &marker, start);
        match pos {
            None => {
                proof {
                    crate::text::lemma_find_idx_shift(report@, marker@, start as int);
                }
                return ids;
            },
            Some(p) => {
                proof {
                    crate::text::lemma_find_idx_shift(report@, marker@, start as int);
                    lemma_find_idx_bounds(report@, marker@, start as int);
                }
                let after = p + marker.len();
                let ghost r2 = rest.skip(p - start + CITATION_MARKER@.len());
                assert(r2 =~= report@.skip(after as int));
                match find_from(report, &close, after) {
                    None => {
                        proof {
                            crate::text::lemma_find_idx_shift(report@, close@, after as int);
                        }
                        return ids;
                    },
                    Some(e) => {
                        proof {
                            crate::text::lemma_find_idx_shift(report@, close@, after as int);
                            lemma_find_idx_bounds(report@, close@, after as int);
                        }
                        let inner = slice_chars(report, after, e);
                        assert(inner@ =~= r2.take(e - after));
                        let ws = split_words(&inner);
                        let id: Vec<char> = if ws.len() > 0 {
                            proof {
                                crate::text::lemma_first_word_is_first(inner@);
                            }
                            slice_chars(&ws[0], 0, ws[0].len())
                        } else {
                            proof {
                                crate::text::lemma_first_word_is_first(inner@);
                            }
                            Vec::new()
                        };
                        assert(id@ == first_word(inner@));
                        let ghost before = char_views(ids@);
                        if id.len() > 0 && !contains_id(&ids, &id) {
                            ids.push(id);
                            assert(char_views(ids@) =~= before.push(id@));
                        }
                        assert(r2.skip(e - after + 1) =~= report@.skip(e + 1));
                        start = e + 1;
                    },
                }
            },
        }
    }
    ids
}

// ---------------------------------------------------------------------------
// Claims found in a report
// ---------------------------------------------------------------------------

/// The report makes a claim about resources.
pub open spec fn resource_claim(t: Seq<char>) -> bool {
    contains(t, "CPU"@) || contains(t, "cpu"@) || contains(t, "内存"@) || contains(t, "memory"@)
        || contains(t, "错误率"@) || contains(t, "error_rate"@) || contains(t, "P99"@) || contains(
        t,
        "延迟"@,
    ) || contains(t, "latency"@) || contains(t, "restart"@) || contains(t, "重启"@)
}

/// The report makes a claim about logs.
pub open spec fn log_claim(t: Seq<char>) -> bool {
    contains(t, "日志"@) || contains(t, "log"@) || contains(t, "ERROR"@) || contains(t, "OOM"@)
        || contains(t, "OutOfMemory"@) || contains(t, "异常日志"@) || contains(t, "错误日志"@)
}

/// The report makes a claim about the JVM.
pub open spec fn jvm_claim(t: Seq<char>) -> bool {
    contains(t, "OOM"@) || contains(t, "OutOfMemory"@) || contains(t, "Full GC"@) || contains(
        t,
        "GC 风暴"@,
    ) || contains(t, "GC overhead"@) || contains(t, "Garbage Collection"@) || contains(t, "gc_"@)
}

/// The text shows a JVM signal.
pub open spec fn jvm_signal(t: Seq<char>) -> bool {
    contains(t, "GC"@) || contains(t, "Full GC"@) || contains(t, "gc_"@) || contains(
        t,
        "OutOfMemory"@,
    ) || contains(t, "OutOfMemoryError"@) || contains(t, "OOM"@)
}

fn has(t: &Vec<char>, needle: &str) -> (r: bool)
    ensures
        r == contains(t@, needle@),
{
    contains_chars(t, &chars_of(needle))
}

pub fn contains_resource_claim(t: &Vec<char>) -> (r: bool)
    ensures
        r == resource_claim(t@),
{
    has(t, "CPU") || has(t, "cpu") || has(t, "内存") || has(t, "memory") || has(t, "错误率") || has(
        t,
        "error_rate",
    ) || has(t, "P99") || has(t, "延迟") || has(t, "latency") || has(t, "restart") || has(t, "重启")
}

pub fn contains_log_claim(t: &Vec<char>) -> (r: bool)
    ensures
        r == log_claim(t@),
{
    has(t, "日志") || has(t, "log") || has(t, "ERROR") || has(t, "OOM") || has(t, "OutOfMemory")
        || has(t, "异常日志") || has(t, "错误日志")
}

pub fn contains_jvm_evidence_claim(t: &Vec<char>) -> (r: bool)
    ensures
        r == jvm_claim(t@),
{
    has(t, "OOM") || has(t, "OutOfMemory") || has(t, "Full GC") || has(t, "GC 风暴") || has(
        t,
        "GC overhead",
    ) || has(t, "Garbage Collection") || has(t, "gc_")
}

fn contains_jvm_signal(t: &Vec<char>) -> (r: bool)
    ensures
        r == jvm_signal(t@),
{
    has(t, "GC") || has(t, "Full GC") || has(t, "gc_") || has(t, "OutOfMemory") || has(
        t,
        "OutOfMemoryError",
    ) || has(t, "OOM")
}

/// Some cited id names usable evidence of a successful call of `tool`.
pub open spec fn cited_successful_tool(
    cited: Seq<Seq<char>>,
    usable: Seq<DiagnosisEvidence>,
    tool: Seq<char>,
) -> bool {
    exists|i: int, j: int|
        0 <= i < cited.len() && 0 <= j < usable.len() && #[trigger] cited[i] == #[trigger] usable[j].id@
            && usable[j].success && usable[j].tool_name@ == tool
}

/// The text of an evidence item that the JVM check reads.
pub open spec fn evidence_text(e: DiagnosisEvidence) -> Seq<char> {
    e.summary@ + " "@ + e.content@ + " "@ + e.raw_fragment@
}

/// Some cited id names usable evidence whose text shows a JVM signal.
pub open spec fn cited_jvm_text(cited: Seq<Seq<char>>, usable: Seq<DiagnosisEvidence>) -> bool {
    exists|i: int, j: int|
        0 <= i < cited.len() && 0 <= j < usable.len() && #[trigger] cited[i] == #[trigger] usable[j].id@
            && jvm_signal(evidence_text(usable[j]))
}

fn has_cited_successful_tool(
    cited: &Vec<Vec<char>>,
    usable: &Vec<DiagnosisEvidence>,
    tool: &str,
) -> (r: bool)
    ensures
        r == cited_successful_tool(char_views(cited@), usable@, tool@),
{
    let mut i: usize = 0;
    while i < cited.len()
        invariant
            i <= cited.len(),
            forall|a: int, b: int|
                0 <= a < i && 0 <= b < usable@.len() ==> !(#[trigger] cited@[a]@ == #[trigger] usable@[b].id@
                    && usable@[b].success && usable@[b].tool_name@ == tool@),
        decreases cited.len() - i,
    {
        let mut j: usize = 0;
        while j < usable.len()
            invariant
                i < cited.len(),
                j <= usable.len(),
                forall|a: int, b: int|
                    0 <= a < i && 0 <= b < usable@.len() ==> !(#[trigger] cited@[a]@
                        == #[trigger] usable@[b].id@ && usable@[b].success && usable@[b].tool_name@
                        == tool@),
                forall|b: int|
                    0 <= b < j ==> !(cited@[i as int]@ == #[trigger] usable@[b].id@ && usable@[b].success
                        && usable@[b].tool_name@ == tool@),
            decreases usable.len() - j,
        {
            let e = &usable[j];
            if chars_eq(&cited[i], &chars_of(e.id.as_str())) && e.success && str_eq(
                e.tool_name.as_str(),
                tool,
            ) {
                assert(char_views(cited@)[i as int] == usable@[j as int].id@);
                return true;
            }
            j = j + 1;
        }
        i = i + 1;
    }
    proof {
        if cited_successful_tool(char_views(cited@), usable@, tool@) {
            let (a, b) = choose|a: int, b: int|
                0 <= a < char_views(cited@).len() && 0 <= b < usable@.len() && #[trigger] char_views(
                    cited@,
                )[a] == #[trigger] usable@[b].id@ && usable@[b].success && usable@[b].tool_name@
                    == tool@;
            assert(cited@[a]@ == usable@[b].id@);
        }
    }
    false
}

fn has_cited_jvm_text(cited: &Vec<Vec<char>>, usable: &Vec<DiagnosisEvidence>) -> (r: bool)
    ensures
        r == cited_jvm_text(char_views(cited@), usable@),
{
    let mut i: usize = 0;
    while i < cited.len()
        invariant
            i <= cited.len(),
            forall|a: int, b: int|
                0 <= a < i && 0 <= b < usable@.len() ==> !(#[trigger] cited@[a]@ == #[trigger] usable@[b].id@
                    && jvm_signal(evidence_text(usable@[b]))),
        decreases cited.len() - i,
    {
        let mut j: usize = 0;
        while j < usable.len()
            invariant
                i < cited.len(),
                j <= usable.len(),
                forall|a: int, b: int|
                    0 <= a < i && 0 <= b < usable@.len() ==> !(#[trigger] cited@[a]@
                        == #[trigger] usable@[b].id@ && jvm_signal(evidence_text(usable@[b]))),
                forall|b: int|
                    0 <= b < j ==> !(cited@[i as int]@ == #[trigger] usable@[b].id@ && jvm_signal(
                        evidence_text(usable@[b]),
                    )),
            decreases usable.len() - j,
        {
            let e = &usable[j];
            if chars_eq(&cited[i], &chars_of(e.id.as_str())) {
                let mut text = chars_of(e.summary.as_str());
                append_str(&mut text, " ");
                append_str(&mut text, e.content.as_str());
                append_str(&mut text, " ");
                append_str(&mut text, e.raw_fragment.as_str());
                assert(text@ =~= evidence_text(*e));
                if contains_jvm_signal(&text) {
                    assert(char_views(cited@)[i as int] == usable@[j as int].id@);
                    return true;
                }
            }
            j = j + 1;
        }
        i = i + 1;
    }
    proof {
        if cited_jvm_text(char_views(cited@), usable@) {
            let (a, b) = choose|a: int, b: int|
                0 <= a < char_views(cited@).len() && 0 <= b < usable@.len() && #[trigger] char_views(
                    cited@,
                )[a] == #[trigger] usable@[b].id@ && jvm_signal(evidence_text(usable@[b]));
            assert(cited@[a]@ == usable@[b].id@);
        }
    }
    false
}

pub const MISSING_ANY_CITATION: &'static str = "报告没有引用任何工具 evidence id";

pub const MISSING_METRIC_TREND: &'static str = "资源类结论缺少成功的 queryMetricTrend 趋势 evidence";

pub const MISSING_LOGS: &'static str = "日志/异常结论缺少成功的 queryLogs evidence";

pub const MISSING_JVM: &'static str = "GC/Full GC 结论缺少对应日志或 JVM 指标 evidence";

/// What evidence the report's claims lack.
pub open spec fn missing_evidence_spec(
    report: Seq<char>,
    usable: Seq<DiagnosisEvidence>,
    known: Seq<Seq<char>>,
    tool: Seq<DiagnosisEvidence>,
) -> Seq<Seq<char>> {
    let m1: Seq<Seq<char>> = if tool.len() > 0 && known.len() == 0 {
        seq![MISSING_ANY_CITATION@]
    } else {
        Seq::empty()
    };
    let m2 = if resource_claim(report) && !cited_successful_tool(
        known,
        usable,
        "queryMetricTrend"@,
    ) {
        m1.push(MISSING_METRIC_TREND@)
    } else {
        m1
    };
    let logs = cited_successful_tool(known, usable, "queryLogs"@);
    let jvm = jvm_claim(report);
    let jvm_text = cited_jvm_text(known, usable);
    let m3 = if log_claim(report) && !logs && !(jvm && jvm_text) {
        m2.push(MISSING_LOGS@)
    } else {
        m2
    };
    if jvm && !logs && !jvm_text {
        m3.push(MISSING_JVM@)
    } else {
        m3
    }
}

fn find_missing_evidence(
    report: &Vec<char>,
    usable: &Vec<DiagnosisEvidence>,
    known: &Vec<Vec<char>>,
    tool: &Vec<DiagnosisEvidence>,
) -> (r: Vec<Vec<char>>)
    ensures
        char_views(r@) == missing_evidence_spec(report@, usable@, char_views(known@), tool@),
{
    let mut missing: Vec<Vec<char>> = Vec::new();
    if tool.len() > 0 && known.len() == 0 {
        missing.push(chars_of(MISSING_ANY_CITATION));
    }
    let ghost m1 = char_views(missing@);
    assert(m1 =~= (if tool@.len() > 0 && char_views(known@).len() == 0 {
        seq![MISSING_ANY_CITATION@]
    } else {
        Seq::<Seq<char>>::empty()
    }));
    if contains_resource_claim(report) && !has_cited_successful_tool(known, usable, "queryMetricTrend") {
        missing.push(chars_of(MISSING_METRIC_TREND));
    }
    let ghost m2 = char_views(missing@);
    let has_successful_logs = has_cited_successful_tool(known, usable, "queryLogs");
    let contains_jvm_claim = contains_jvm_evidence_claim(report);
    let has_successful_jvm_text = has_cited_jvm_text(known, usable);
    if contains_log_claim(report) && !has_successful_logs && !(contains_jvm_claim
        && has_successful_jvm_text) {
        missing.push(chars_of(MISSING_LOGS));
    }
    let ghost m3 = char_views(missing@);
    if contains_jvm_claim && !has_successful_logs && !has_successful_jvm_text {
        missing.push(chars_of(MISSING_JVM));
    }
    proof {
        assert(m2 =~= (if resource_claim(report@) && !cited_successful_tool(
            char_views(known@),
            usable@,
            "queryMetricTrend"@,
        ) {
            m1.push(MISSING_METRIC_TREND@)
        } else {
            m1
        }));
        assert(char_views(missing@) =~= missing_evidence_spec(
            report@,
            usable@,
            char_views(known@),
            tool@,
        ));
    }
    missing
}

// ---------------------------------------------------------------------------
// Verdict
// ---------------------------------------------------------------------------

pub open spec fn confidence_spec(
    unknown: Seq<Seq<char>>,
    invalid: Seq<Seq<char>>,
    missing: Seq<Seq<char>>,
    known: Seq<Seq<char>>,
) -> Seq<char> {
    if unknown.len() > 0 || invalid.len() > 0 {
        "低"@
    } else if missing.len() == 0 && known.len() > 0 {
        "高"@
    } else {
        "中"@
    }
}

pub open spec fn validation_status_spec(
    unknown: Seq<Seq<char>>,
    invalid: Seq<Seq<char>>,
    missing: Seq<Seq<char>>,
) -> Seq<char> {
    if unknown.len() > 0 || invalid.len() > 0 {
        "失败"@
    } else if missing.len() > 0 {
        "需补证"@
    } else {
        "通过"@
    }
}

fn confidence(
    unknown: &Vec<Vec<char>>,
    invalid: &Vec<Vec<char>>,
    missing: &Vec<Vec<char>>,
    known: &Vec<Vec<char>>,
) -> (r: &'static str)
    ensures
        r@ == confidence_spec(
            char_views(unknown@),
            char_views(invalid@),
            char_views(missing@),
            char_views(known@),
        ),
{
    if unknown.len() > 0 || invalid.len() > 0 {
        return "低";
    }
    if missing.len() == 0 && known.len() > 0 {
        return "高";
    }
    "中"
}

fn validation_status(
    unknown: &Vec<Vec<char>>,
    invalid: &Vec<Vec<char>>,
    missing: &Vec<Vec<char>>,
) -> (r: &'static str)
    ensures
        r@ == validation_status_spec(char_views(unknown@), char_views(invalid@), char_views(missing@)),
{
    if unknown.len() > 0 || invalid.len() > 0 {
        return "失败";
    }
    if missing.len() > 0 {
        return "需补证";
    }
    "通过"
}

/// Index of the first item of `ev` with id `id`.
pub open spec fn first_with_id(ev: Seq<DiagnosisEvidence>, id: Seq<char>) -> Option<int>
    decreases ev.len(),
{
    if ev.len() == 0 {
        None
    } else if ev[0].id@ == id {
        Some(0)
    } else {
        match first_with_id(ev.drop_first(), id) {
            Some(k) => Some(k + 1),
            None => None,
        }
    }
}

/// The index `first_with_id` gives lies within `ev`.
pub proof fn lemma_first_with_id_bounds(ev: Seq<DiagnosisEvidence>, id: Seq<char>)
    ensures
        match first_with_id(ev, id) {
            Some(k) => 0 <= k < ev.len(),
            None => true,
        },
    decreases ev.len(),
{
    if ev.len() > 0 && ev[0].id@ != id {
        lemma_first_with_id_bounds(ev.drop_first(), id);
    }
}

proof fn lemma_first_with_id(ev: Seq<DiagnosisEvidence>, id: Seq<char>, k: int)
    requires
        0 <= k <= ev.len(),
        forall|j: int| 0 <= j < k ==> #[trigger] ev[j].id@ != id,
        k == ev.len() || ev[k].id@ == id,
    ensures
        first_with_id(ev, id) == if k < ev.len() {
            Some(k)
        } else {
            None::<int>
        },
    decreases k,
{
    if k > 0 {
        assert forall|j: int| 0 <= j < k - 1 implies #[trigger] ev.drop_first()[j].id@ != id by {
            assert(ev.drop_first()[j] == ev[j + 1]);
        }
        if k < ev.len() {
            assert(ev.drop_first()[k - 1] == ev[k]);
        }
        lemma_first_with_id(ev.drop_first(), id, k - 1);
    }
}

/// Why a cited id cannot back a conclusion.
pub open spec fn invalid_reason(id: Seq<char>, tool: Seq<DiagnosisEvidence>) -> Seq<char> {
    match first_with_id(tool, id) {
        Some(k) => if tool[k].error_code@.len() > 0 {
            tool[k].error_code@
        } else if !tool[k].success {
            "success=false"@
        } else {
            "unusable"@
        },
        None => "unusable"@,
    }
}

pub open spec fn invalid_item(id: Seq<char>, tool: Seq<DiagnosisEvidence>) -> Seq<char> {
    id + "("@ + invalid_reason(id, tool) + ")"@
}

pub open spec fn invalid_summary_spec(invalid: Seq<Seq<char>>, tool: Seq<DiagnosisEvidence>) -> Seq<
    char,
> {
    if invalid.len() == 0 {
        "无"@
    } else {
        join(invalid.map_values(|id: Seq<char>| invalid_item(id, tool)), ", "@)
    }
}

pub open spec fn available_item(e: DiagnosisEvidence) -> Seq<char> {
    e.id@ + "("@ + e.tool_name@ + ","@ + (if e.success {
        "success"@
    } else {
        "failed"@
    }) + (if e.error_code@.len() == 0 {
        Seq::empty()
    } else {
        ","@ + e.error_code@
    }) + ")"@
}

pub open spec fn available_summary_spec(usable: Seq<DiagnosisEvidence>) -> Seq<char> {
    if usable.len() == 0 {
        "无"@
    } else {
        join(usable.map_values(|e: DiagnosisEvidence| available_item(e)), ", "@)
    }
}

fn id_is(e: &DiagnosisEvidence, id: &Vec<char>) -> (r: bool)
    ensures
        r == (e.id@ == id@),
{
    chars_eq(&chars_of(e.id.as_str()), id)
}

fn invalid_evidence_summary(invalid: &Vec<Vec<char>>, tool: &Vec<DiagnosisEvidence>) -> (r: Vec<
    char,
>)
    ensures
        r@ == invalid_summary_spec(char_views(invalid@), tool@),
{
    if invalid.len() == 0 {
        return chars_of("无");
    }
    let mut items: Vec<Vec<char>> = Vec::new();
    let mut i: usize = 0;
    while i < invalid.len()
        invariant
            i <= invalid.len(),
            char_views(items@) == char_views(invalid@).take(i as int).map_values(
                |id: Seq<char>| invalid_item(id, tool@),
            ),
        decreases invalid.len() - i,
    {
        let id = &invalid[i];
        let mut k: usize = 0;
        while k < tool.len() && !id_is(&tool[k], id)
            invariant
                k <= tool.len(),
                forall|j: int| 0 <= j < k ==> #[trigger] tool@[j].id@ != id@,
            decreases tool.len() - k,
        {
            k = k + 1;
        }
        proof {
            lemma_first_with_id(tool@, id@, k as int);
        }
        let mut item = slice_chars(id, 0, id.len());
        append_str(&mut item, "(");
        if k < tool.len() && tool[k].error_code.unicode_len() > 0 {
            append_str(&mut item, tool[k].error_code.as_str());
        } else if k < tool.len() && !tool[k].success {
            append_str(&mut item, "success=false");
        } else {
            append_str(&mut item, "unusable");
        }
        append_str(&mut item, ")");
        assert(item@ =~= invalid_item(id@, tool@));
        let ghost before = char_views(items@);
        items.push(item);
        proof {
            assert(char_views(items@) =~= before.push(invalid_item(id@, tool@)));
            assert(char_views(invalid@).take(i + 1) =~= char_views(invalid@).take(i as int).push(
                id@,
            ));
            assert(char_views(invalid@).take(i + 1).map_values(
                |id: Seq<char>| invalid_item(id, tool@),
            ) =~= char_views(invalid@).take(i as int).map_values(
                |id: Seq<char>| invalid_item(id, tool@),
            ).push(invalid_item(id@, tool@)));
        }
        i = i + 1;
    }
    assert(char_views(invalid@).take(invalid.len() as int) =~= char_views(invalid@));
    join_chars(&items, &chars_of(", "))
}

fn available_evidence_summary(usable: &Vec<DiagnosisEvidence>) -> (r: Vec<char>)
    ensures
        r@ == available_summary_spec(usable@),
{
    if usable.len() == 0 {
        return chars_of("无");
    }
    let mut items: Vec<Vec<char>> = Vec::new();
    let mut i: usize = 0;
    while i < usable.len()
        invariant
            i <= usable.len(),
            char_views(items@) == usable@.take(i as int).map_values(
                |e: DiagnosisEvidence| available_item(e),
            ),
        decreases usable.len() - i,
    {
        let e = &usable[i];
        let mut item = chars_of(e.id.as_str());
        append_str(&mut item, "(");
        append_str(&mut item, e.tool_name.as_str());
        append_str(&mut item, ",");
        if e.success {
            append_str(&mut item, "success");
        } else {
            append_str(&mut item, "failed");
        }
        let ghost mid = item@;
        if e.error_code.unicode_len() > 0 {
            append_str(&mut item, ",");
            append_str(&mut item, e.error_code.as_str());
        }
        append_str(&mut item, ")");
        proof {
            if e.error_code@.len() == 0 {
                assert(item@ =~= mid + Seq::<char>::empty() + ")"@);
            }
            assert(item@ =~= available_item(*e));
        }
        let ghost before = char_views(items@);
        items.push(item);
        proof {
            assert(char_views(items@) =~= before.push(available_item(*e)));
            assert(usable@.take(i + 1).map_values(|e: DiagnosisEvidence| available_item(e))
                =~= usable@.take(i as int).map_values(|e: DiagnosisEvidence| available_item(e)).push(
                available_item(*e),
            ));
        }
        i = i + 1;
    }
    assert(usable@.take(usable.len() as int) =~= usable@);
    join_chars(&items, &chars_of(", "))
}

// ---------------------------------------------------------------------------
// Removing an earlier validation section
// ---------------------------------------------------------------------------

/// The heading of the validation section.
pub open spec fn validation_heading() -> Seq<char> {
    seq!['#', '#', ' ', '证', '据', '校', '验']
}

/// The start of a level-two heading.
pub open spec fn level_two_prefix() -> Seq<char> {
    seq!['#', '#', ' ']
}

/// A horizontal rule.
pub open spec fn rule() -> Seq<char> {
    seq!['-', '-', '-']
}

/// The lines that survive removal of validation sections: a line whose
/// trimmed text is the heading is dropped and starts skipping; skipping ends
/// at the next level-two heading, which is kept.
pub open spec fn kept_lines(ls: Seq<Seq<char>>, skipping: bool) -> Seq<Seq<char>>
    decreases ls.len(),
{
    if ls.len() == 0 {
        Seq::empty()
    } else {
        let t = trim(ls[0]);
        if t == validation_heading() {
            kept_lines(ls.drop_first(), true)
        } else if skipping && !starts_with(t, level_two_prefix()) {
            kept_lines(ls.drop_first(), true)
        } else {
            seq![ls[0]] + kept_lines(ls.drop_first(), false)
        }
    }
}

/// Trailing whitespace and trailing `---` rules removed, repeatedly.
pub open spec fn strip_trailing_rules(s: Seq<char>) -> Seq<char>
    decreases s.len(),
{
    let t = trim_end(s);
    proof {
        crate::text::lemma_trim_end_len(s);
    }
    if ends_with(t, rule()) {
        strip_trailing_rules(t.take(t.len() - 3))
    } else {
        t
    }
}

/// The report without any earlier validation section.
pub open spec fn strip_section_spec(report: Seq<char>) -> Seq<char> {
    trim(strip_trailing_rules(join(kept_lines(lines(report), false), seq!['\n'])))
}

fn strip_existing_validation_section(report: &Vec<char>) -> (r: Vec<char>)
    ensures
        r@ == strip_section_spec(report@),
{
    let ls = split_lines(report);
    let heading = vec!['#', '#', ' ', '证', '据', '校', '验'];
    let prefix = vec!['#', '#', ' '];
    assert(heading@ =~= validation_heading());
    assert(prefix@ =~= level_two_prefix());
    let mut kept: Vec<Vec<char>> = Vec::new();
    let mut skipping = false;
    let mut i: usize = 0;
    assert(char_views(ls@).skip(0) =~= char_views(ls@));
    while i < ls.len()
        invariant
            i <= ls.len(),
            heading@ == validation_heading(),
            prefix@ == level_two_prefix(),
            char_views(kept@) + kept_lines(char_views(ls@).skip(i as int), skipping) == kept_lines(
                char_views(ls@),
                false,
            ),
        decreases ls.len() - i,
    {
        let ghost rest = char_views(ls@).skip(i as int);
        assert(rest[0] == ls@[i as int]@);
        assert(rest.drop_first() =~= char_views(ls@).skip(i + 1));
        let line = &ls[i];
        let t = trim_chars(line);
        if chars_eq(&t, &heading) {
            skipping = true;
        } else if skipping && !matches_at(&t, &prefix, 0) {
        } else {
            let ghost before = char_views(kept@);
            let copy = slice_chars(line, 0, line.len());
            assert(copy@ =~= line@);
            kept.push(copy);
            assert(char_views(kept@) =~= before.push(line@));
            assert(before + (seq![line@] + kept_lines(rest.drop_first(), false)) =~= char_views(
                kept@,
            ) + kept_lines(rest.drop_first(), false));
            skipping = false;
        }
        i = i + 1;
    }
    assert(kept_lines(char_views(ls@).skip(i as int), skipping) =~= Seq::<Seq<char>>::empty());
    assert(char_views(kept@) + Seq::<Seq<char>>::empty() =~= char_views(kept@));
    let newline = vec!['\n'];
    assert(newline@ =~= seq!['\n']);
    let joined = join_chars(&kept, &newline);
    let dashes = vec!['-', '-', '-'];
    assert(dashes@ =~= rule());
    let mut len = trim_end_len(&joined, joined.len());
    proof {
        assert(joined@.take(joined.len() as int) =~= joined@);
        crate::text::lemma_trim_end_len(joined@);
        crate::text::lemma_trim_end_len(joined@.take(len as int));
    }
    while len >= 3 && matches_at(&joined, &dashes, len - 3)
        invariant
            len <= joined.len(),
            dashes@ == rule(),
            strip_trailing_rules(joined@.take(len as int)) == strip_trailing_rules(joined@),
            trim_end(joined@.take(len as int)) == joined@.take(len as int),
        decreases len,
    {
        let ghost t = joined@.take(len as int);
        proof {
            assert(t.subrange(len - 3, len as int) =~= joined@.subrange(len - 3, len as int));
            assert(ends_with(t, rule()));
        }
        let next = trim_end_len(&joined, len - 3);
        proof {
            assert(t.take(t.len() - 3) =~= joined@.take(len - 3));
            assert(strip_trailing_rules(t) == strip_trailing_rules(joined@.take(len - 3)));
            let u = joined@.take(len - 3);
            crate::text::lemma_trim_end_len(u);
            crate::text::lemma_trim_end_len(joined@.take(next as int));
        }
        len = next;
    }
    proof {
        let t = joined@.take(len as int);
        if len >= 3 {
            assert(t.subrange(len - 3, len as int) =~= joined@.subrange(len - 3, len as int));
        }
        assert(!ends_with(t, rule()));
    }
    let cut = slice_chars(&joined, 0, len);
    assert(cut@ =~= joined@.take(len as int));
    trim_chars(&cut)
}

// ---------------------------------------------------------------------------
// The guard
// ---------------------------------------------------------------------------

/// The cited ids that satisfy `f`, in order.
pub open spec fn keep_ids(ids: Seq<Seq<char>>, f: spec_fn(Seq<char>) -> bool) -> Seq<Seq<char>>
    decreases ids.len(),
{
    if ids.len() == 0 {
        Seq::empty()
    } else {
        let p = keep_ids(ids.drop_last(), f);
        if f(ids.last()) {
            p.push(ids.last())
        } else {
            p
        }
    }
}

/// `x` is the (non-empty) id of an item of `ev`.
pub open spec fn names_item(ev: Seq<DiagnosisEvidence>, x: Seq<char>) -> bool {
    x.len() > 0 && exists|i: int| 0 <= i < ev.len() && #[trigger] ev[i].id@ == x
}

/// How the cited ids of a report sort against the evidence.
pub struct CitationCheck {
    pub cited: Seq<Seq<char>>,
    pub unknown: Seq<Seq<char>>,
    pub invalid: Seq<Seq<char>>,
    pub known: Seq<Seq<char>>,
}

pub open spec fn check_citations(report: Seq<char>, ev: Seq<DiagnosisEvidence>) -> CitationCheck {
    let tool = tool_evidence_spec(ev);
    let usable = usable_evidence_spec(ev);
    let cited = cited_ids(report);
    let unknown = keep_ids(cited, |x: Seq<char>| !names_item(tool, x));
    let invalid = keep_ids(cited, |x: Seq<char>| names_item(tool, x) && !names_item(usable, x));
    let known = keep_ids(cited, |x: Seq<char>| !unknown.contains(x) && !invalid.contains(x));
    CitationCheck { cited, unknown, invalid, known }
}

pub const RULE_AND_HEADING: &'static str = "\n\n---\n\n## 证据校验\n";

pub const STATUS_LABEL: &'static str = "- 校验状态: ";

pub const CONFIDENCE_LABEL: &'static str = "\n- 置信度: ";

pub const CITED_LABEL: &'static str = "\n- 已引用证据: ";

pub const UNKNOWN_LABEL: &'static str = "\n- 未知证据: ";

pub const INVALID_LABEL: &'static str = "\n- 无效/失败证据: ";

pub const MISSING_LABEL: &'static str = "\n- 缺失证据: ";

pub const AVAILABLE_LABEL: &'static str = "\n- 可用证据: ";

pub const SECTION_TAIL: &'static str = "\n- 约束说明: 以上校验仅基于已持久化的工具 evidence；未被 evidence 支撑的结论应按证据不足处理。\n";

/// `items` joined by `sep`, or `无` when there are none.
pub open spec fn list_or_none(items: Seq<Seq<char>>, sep: Seq<char>) -> Seq<char> {
    if items.len() == 0 {
        "无"@
    } else {
        join(items, sep)
    }
}

/// The validation section appended to a report that has already been
/// stripped and trimmed: a rule, the heading, and the body.
pub open spec fn validation_section(safe: Seq<char>, ev: Seq<DiagnosisEvidence>) -> Seq<char> {
    RULE_AND_HEADING@ + validation_body(safe, ev)
}

/// The lines of the validation section under its heading.
pub open spec fn validation_body(safe: Seq<char>, ev: Seq<DiagnosisEvidence>) -> Seq<char> {
    let c = check_citations(safe, ev);
    let tool = tool_evidence_spec(ev);
    let usable = usable_evidence_spec(ev);
    let missing = missing_evidence_spec(safe, usable, c.known, tool);
    STATUS_LABEL@ + validation_status_spec(c.unknown, c.invalid, missing) + CONFIDENCE_LABEL@
        + confidence_spec(c.unknown, c.invalid, missing, c.known) + CITED_LABEL@ + list_or_none(
        c.known,
        ", "@,
    ) + UNKNOWN_LABEL@ + list_or_none(c.unknown, ", "@) + INVALID_LABEL@ + invalid_summary_spec(
        c.invalid,
        tool,
    ) + MISSING_LABEL@ + list_or_none(missing, "; "@) + AVAILABLE_LABEL@ + available_summary_spec(
        usable,
    ) + SECTION_TAIL@
}

/// What `constrain_report` returns.
pub open spec fn constrain_spec(report: Seq<char>, ev: Seq<DiagnosisEvidence>) -> Seq<char> {
    let safe = strip_section_spec(report);
    safe + validation_section(safe, ev)
}

/// Whether `x` names a (non-empty) id of `ev`.
fn names_item_exec(ev: &Vec<DiagnosisEvidence>, x: &Vec<char>) -> (r: bool)
    ensures
        r == names_item(ev@, x@),
{
    if x.len() == 0 {
        return false;
    }
    let mut i: usize = 0;
    while i < ev.len()
        invariant
            i <= ev.len(),
            x@.len() > 0,
            forall|j: int| 0 <= j < i ==> #[trigger] ev@[j].id@ != x@,
        decreases ev.len() - i,
    {
        if chars_eq(&chars_of(ev[i].id.as_str()), x) {
            assert(ev@[i as int].id@ == x@);
            assert(x@.len() > 0);
            assert(exists|j: int| 0 <= j < ev@.len() && #[trigger] ev@[j].id@ == x@);
            return true;
        }
        i = i + 1;
    }
    false
}

/// Which filter over cited ids to apply.
enum IdFilter {
    Unknown,
    Invalid,
    Known,
}

fn filter_ids(
    cited: &Vec<Vec<char>>,
    which: &IdFilter,
    tool: &Vec<DiagnosisEvidence>,
    usable: &Vec<DiagnosisEvidence>,
    unknown: &Vec<Vec<char>>,
    invalid: &Vec<Vec<char>>,
) -> (r: Vec<Vec<char>>)
    ensures
        char_views(r@) == keep_ids(
            char_views(cited@),
            match *which {
                IdFilter::Unknown => |x: Seq<char>| !names_item(tool@, x),
                IdFilter::Invalid => |x: Seq<char>| names_item(tool@, x) && !names_item(usable@, x),
                IdFilter::Known => |x: Seq<char>|
                    !char_views(unknown@).contains(x) && !char_views(invalid@).contains(x),
            },
        ),
{
    let ghost f = match *which {
        IdFilter::Unknown => |x: Seq<char>| !names_item(tool@, x),
        IdFilter::Invalid => |x: Seq<char>| names_item(tool@, x) && !names_item(usable@, x),
        IdFilter::Known => |x: Seq<char>|
            !char_views(unknown@).contains(x) && !char_views(invalid@).contains(x),
    };
    let mut out: Vec<Vec<char>> = Vec::new();
    let mut i: usize = 0;
    while i < cited.len()
        invariant
            i <= cited.len(),
            f == match *which {
                IdFilter::Unknown => |x: Seq<char>| !names_item(tool@, x),
                IdFilter::Invalid => |x: Seq<char>| names_item(tool@, x) && !names_item(usable@, x),
                IdFilter::Known => |x: Seq<char>|
                    !char_views(unknown@).contains(x) && !char_views(invalid@).contains(x),
            },
            char_views(out@) == keep_ids(char_views(cited@).take(i as int), f),
        decreases cited.len() - i,
    {
        let x = &cited[i];
        let chosen = match which {
            IdFilter::Unknown => !names_item_exec(tool, x),
            IdFilter::Invalid => names_item_exec(tool, x) && !names_item_exec(usable, x),
            IdFilter::Known => !contains_id(unknown, x) && !contains_id(invalid, x),
        };
        assert(chosen == f(x@));
        assert(char_views(cited@).take(i + 1).drop_last() =~= char_views(cited@).take(i as int));
        assert(char_views(cited@).take(i + 1).last() == x@);
        let ghost before = char_views(out@);
        if chosen {
            let copy = slice_chars(x, 0, x.len());
            assert(copy@ =~= x@);
            out.push(copy);
            assert(char_views(out@) =~= before.push(x@));
        }
        i = i + 1;
    }
    assert(char_views(cited@).take(cited.len() as int) =~= char_views(cited@));
    out
}

fn build_validation_body(safe: &Vec<char>, evidence: &[DiagnosisEvidence]) -> (r: Vec<char>)
    ensures
        r@ == validation_body(safe@, evidence@),
{
    let tool = tool_evidence(evidence);
    let usable = usable_tool_evidence(evidence);
    let cited = extract_evidence_ids(safe);
    let none_yet: Vec<Vec<char>> = Vec::new();
    let unknown = filter_ids(&cited, &IdFilter::Unknown, &tool, &usable, &none_yet, &none_yet);
    let invalid = filter_ids(&cited, &IdFilter::Invalid, &tool, &usable, &none_yet, &none_yet);
    let known = filter_ids(&cited, &IdFilter::Known, &tool, &usable, &unknown, &invalid);
    let missing = find_missing_evidence(safe, &usable, &known, &tool);
    let status = validation_status(&unknown, &invalid, &missing);
    let conf = confidence(&unknown, &invalid, &missing, &known);
    let ghost c = check_citations(safe@, evidence@);
    assert(char_views(unknown@) == c.unknown);
    assert(char_views(invalid@) == c.invalid);
    assert(char_views(known@) == c.known);
    let mut out: Vec<char> = Vec::new();
    append_str(&mut out, STATUS_LABEL);
    append_str(&mut out, status);
    append_str(&mut out, CONFIDENCE_LABEL);
    append_str(&mut out, conf);
    append_str(&mut out, CITED_LABEL);
    append_list(&mut out, &known, ", ");
    let ghost part1 = out@;
    append_str(&mut out, UNKNOWN_LABEL);
    append_list(&mut out, &unknown, ", ");
    append_str(&mut out, INVALID_LABEL);
    append_chars(&mut out, &invalid_evidence_summary(&invalid, &tool));
    let ghost part2 = out@;
    append_str(&mut out, MISSING_LABEL);
    append_list(&mut out, &missing, "; ");
    append_str(&mut out, AVAILABLE_LABEL);
    append_chars(&mut out, &available_evidence_summary(&usable));
    append_str(&mut out, SECTION_TAIL);
    proof {
        let missing_s = missing_evidence_spec(safe@, usable@, c.known, tool@);
        assert(part1 =~= STATUS_LABEL@ + validation_status_spec(c.unknown, c.invalid, missing_s)
            + CONFIDENCE_LABEL@ + confidence_spec(c.unknown, c.invalid, missing_s, c.known)
            + CITED_LABEL@ + list_or_none(c.known, ", "@));
        assert(part2 =~= part1 + UNKNOWN_LABEL@ + list_or_none(c.unknown, ", "@) + INVALID_LABEL@
            + invalid_summary_spec(c.invalid, tool@));
        assert(out@ =~= part2 + MISSING_LABEL@ + list_or_none(missing_s, "; "@) + AVAILABLE_LABEL@
            + available_summary_spec(usable@) + SECTION_TAIL@);
    }
    out
}

/// The report, without any earlier validation section, followed by a new
/// one: the verdict, the confidence, the cited, unknown and invalid ids, the
/// evidence the claims lack, and the usable evidence.
pub fn constrain_report(report: &str, evidence: &[DiagnosisEvidence]) -> (r: String)
    ensures
        r@ == constrain_spec(report@, evidence@),
{
    let stripped = strip_existing_validation_section(&chars_of(report));
    let mut out = slice_chars(&stripped, 0, stripped.len());
    assert(out@ =~= stripped@);
    append_str(&mut out, RULE_AND_HEADING);
    let body = build_validation_body(&stripped, evidence);
    append_chars(&mut out, &body);
    string_of(&out)
}

fn append_list(out: &mut Vec<char>, items: &Vec<Vec<char>>, sep: &str)
    ensures
        final(out)@ == old(out)@ + list_or_none(char_views(items@), sep@),
{
    if items.len() == 0 {
        append_str(out, "无");
    } else {
        let joined = join_chars(items, &chars_of(sep));
        append_chars(out, &joined);
    }
}

} // verus!
