//! Laws of the report guard: guarding a report twice gives the same text
//! as guarding it once, the verdict lines under the validation heading
//! follow the citations, and the evidence table lists what the evidence
//! holds.
use vstd::prelude::*;

use crate::diagnosis_report::{
    available_item, available_summary_spec, check_citations, cited_ids, cited_ids_from,
    confidence_spec, constrain_spec, invalid_item, invalid_reason, invalid_summary_spec, is_tool_evidence,
    is_usable, keep, keep_ids, kept_lines, lemma_keep_members, level_two_prefix, list_or_none,
    missing_evidence_spec, names_item, resource_claim, log_claim, jvm_claim, jvm_signal, evidence_text, cited_successful_tool, cited_jvm_text, rule, strip_section_spec, strip_trailing_rules, tool_evidence_spec,
    usable_evidence_spec, validation_body, validation_heading, validation_section,
    validation_status_spec, cell_spec, compact_spec, evidence_table_spec, evidence_tables,
    failed_evidence_spec, failed_row, is_failed, rows, usable_row, FAILED_TABLE_HEAD,
    USABLE_TABLE_HEAD, SUMMARY_LIMIT, AVAILABLE_LABEL, CITATION_MARKER, CITED_LABEL, CONFIDENCE_LABEL,
    INVALID_LABEL, MISSING_ANY_CITATION, MISSING_JVM, MISSING_LABEL, MISSING_LOGS,
    MISSING_METRIC_TREND, RULE_AND_HEADING, SECTION_TAIL, STATUS_LABEL, UNKNOWN_LABEL,
};
use crate::model::DiagnosisEvidence;
use crate::text::{
    all_ws, ends_with, find_idx, lemma_blank_iff_all_ws, replace, first_word, is_ws, join, lemma_find_idx_bounds, lemma_trim_end_len,
    lemma_trim_end_nonempty, lemma_trim_start_len, line_len, lines, occurs_at, starts_with,
    strip_cr, trim, trim_end, trim_start, word_len,
};

verus! {

proof fn lemma_line_len_props(s: Seq<char>)
    ensures
        line_len(s) <= s.len(),
        forall|i: int| 0 <= i < line_len(s) ==> #[trigger] s[i] != '\n',
        line_len(s) < s.len() ==> s[line_len(s) as int] == '\n',
    decreases s.len(),
{
    if s.len() > 0 && s[0] != '\n' {
        lemma_line_len_props(s.drop_first());
        assert forall|i: int| 0 <= i < line_len(s) implies #[trigger] s[i] != '\n' by {
            if i > 0 {
                assert(s[i] == s.drop_first()[i - 1]);
            }
        }
    }
}

/// A first line without `\n` and not ending in `\r`, then `\n`, then the rest.
proof fn lemma_lines_cons(p: Seq<char>, b: Seq<char>)
    requires
        forall|i: int| 0 <= i < p.len() ==> #[trigger] p[i] != '\n',
        p.len() == 0 || p.last() != '\r',
    ensures
        lines(p + seq!['\n'] + b) == seq![p] + lines(b),
{
    let s = p + seq!['\n'] + b;
    assert forall|i: int| 0 <= i < p.len() implies #[trigger] s[i] != '\n' by {
        assert(s[i] == p[i]);
    }
    assert(s[p.len() as int] == '\n');
    crate::text::lemma_line_len(s, p.len() as int);
    assert(s.take(p.len() as int) =~= p);
    assert(s.skip(p.len() as int + 1) =~= b);
}

/// Lines of `a`, a newline, then `b`: the lines of `a` followed by those of `b`.
proof fn lemma_lines_concat(a: Seq<char>, b: Seq<char>)
    requires
        a.len() > 0,
        a.last() != '\n',
        a.last() != '\r',
    ensures
        lines(a + seq!['\n'] + b) == lines(a) + lines(b),
    decreases a.len(),
{
    lemma_line_len_props(a);
    let k = line_len(a);
    if k == a.len() {
        lemma_lines_cons(a, b);
        assert(lines(a) =~= seq![a]);
    } else {
        let s = a + seq!['\n'] + b;
        assert forall|i: int| 0 <= i < k implies #[trigger] s[i] != '\n' by {
            assert(s[i] == a[i]);
        }
        assert(s[k as int] == a[k as int]);
        crate::text::lemma_line_len(s, k as int);
        let rest = a.skip(k as int + 1);
        assert(k < a.len() - 1);
        assert(rest.last() == a.last());
        lemma_lines_concat(rest, b);
        assert(s.take(k as int) =~= a.take(k as int));
        assert(s.skip(k as int + 1) =~= rest + seq!['\n'] + b);
    }
}

/// Lines that are not the heading pass through while not skipping.
proof fn lemma_kept_prefix(l: Seq<Seq<char>>, x: Seq<Seq<char>>)
    requires
        forall|i: int| 0 <= i < l.len() ==> trim(#[trigger] l[i]) != validation_heading(),
    ensures
        kept_lines(l + x, false) == l + kept_lines(x, false),
    decreases l.len(),
{
    if l.len() > 0 {
        assert((l + x)[0] == l[0]);
        assert((l + x).drop_first() =~= l.drop_first() + x);
        assert forall|i: int| 0 <= i < l.drop_first().len() implies trim(
            #[trigger] l.drop_first()[i],
        ) != validation_heading() by {
            assert(l.drop_first()[i] == l[i + 1]);
        }
        lemma_kept_prefix(l.drop_first(), x);
        assert(seq![l[0]] + (l.drop_first() + kept_lines(x, false)) =~= l + kept_lines(x, false));
    } else {
        assert(l + x =~= x);
        assert(l + kept_lines(x, false) =~= kept_lines(x, false));
    }
}

/// Lines under the heading that open no other level-two section.
pub open spec fn stays_in_section(l: Seq<char>) -> bool {
    trim(l) == validation_heading() || !starts_with(trim(l), level_two_prefix())
}

/// Skipping goes on to the end when no line opens another section.
proof fn lemma_kept_skip_all(x: Seq<Seq<char>>)
    requires
        forall|i: int| 0 <= i < x.len() ==> stays_in_section(#[trigger] x[i]),
    ensures
        kept_lines(x, true) == Seq::<Seq<char>>::empty(),
    decreases x.len(),
{
    if x.len() > 0 {
        assert(stays_in_section(x[0]));
        assert forall|i: int| 0 <= i < x.drop_first().len() implies stays_in_section(
            #[trigger] x.drop_first()[i],
        ) by {
            assert(x.drop_first()[i] == x[i + 1]);
        }
        lemma_kept_skip_all(x.drop_first());
    }
}

proof fn lemma_join_append(l: Seq<Seq<char>>, m: Seq<Seq<char>>, sep: Seq<char>)
    requires
        l.len() > 0,
        m.len() > 0,
    ensures
        join(l + m, sep) == join(l, sep) + sep + join(m, sep),
    decreases l.len(),
{
    if l.len() == 1 {
        assert((l + m).drop_first() =~= m);
        assert((l + m)[0] == l[0]);
    } else {
        assert((l + m).drop_first() =~= l.drop_first() + m);
        lemma_join_append(l.drop_first(), m, sep);
        assert((l + m)[0] == l[0]);
        assert(l[0] + sep + (join(l.drop_first(), sep) + sep + join(m, sep)) =~= l[0] + sep + join(
            l.drop_first(),
            sep,
        ) + sep + join(m, sep));
    }
}

proof fn lemma_trim_end_append_ws(a: Seq<char>, w: Seq<char>)
    requires
        forall|i: int| 0 <= i < w.len() ==> is_ws(#[trigger] w[i]),
        a.len() == 0 || !is_ws(a.last()),
    ensures
        trim_end(a + w) == a,
    decreases w.len(),
{
    if w.len() > 0 {
        assert((a + w).last() == w.last());
        assert((a + w).drop_last() =~= a + w.drop_last());
        assert forall|i: int| 0 <= i < w.drop_last().len() implies is_ws(#[trigger] w.drop_last()[i]) by {
            assert(w.drop_last()[i] == w[i]);
        }
        lemma_trim_end_append_ws(a, w.drop_last());
    } else {
        assert(a + w =~= a);
    }
}

/// What `strip_trailing_rules` leaves has no trailing whitespace or rule.
proof fn lemma_strip_trailing_rules_result(s: Seq<char>)
    ensures
        trim_end(strip_trailing_rules(s)) == strip_trailing_rules(s),
        !ends_with(strip_trailing_rules(s), rule()),
        strip_trailing_rules(s).len() == 0 || !is_ws(strip_trailing_rules(s).last()),
    decreases s.len(),
{
    let t = trim_end(s);
    lemma_trim_end_len(s);
    if ends_with(t, rule()) {
        lemma_strip_trailing_rules_result(t.take(t.len() - 3));
    } else {
        if t.len() == 0 {
            assert(trim_end(t) =~= t);
        }
    }
}

/// Facts about a stripped report that the law needs.
proof fn lemma_stripped_shape(report: Seq<char>)
    ensures
        ({
            let r = strip_section_spec(report);
            &&& trim(r) == r
            &&& r.len() == 0 || !is_ws(r.last())
            &&& !ends_with(r, rule())
        }),
{
    let t = strip_trailing_rules(join(kept_lines(lines(report), false), seq!['\n']));
    lemma_strip_trailing_rules_result(join(kept_lines(lines(report), false), seq!['\n']));
    lemma_trim_start_len(t);
    let u = trim_start(t);
    let k = t.len() - u.len();
    assert(u =~= t.skip(k));
    if u.len() > 0 {
        assert(u.last() == t.last());
        assert(trim_end(u) == u);
        if ends_with(u, rule()) {
            assert(u.subrange(u.len() - 3, u.len() as int) =~= t.subrange(
                t.len() - 3,
                t.len() as int,
            ));
        }
    } else {
        assert(trim_end(u) =~= u);
    }
    assert(trim(t) == u);
    crate::text::lemma_trim_idempotent(t);
}

proof fn lemma_trim_literal(l: Seq<char>)
    requires
        l.len() > 0,
        !is_ws(l[0]),
        !is_ws(l.last()),
    ensures
        trim(l) == l,
{
    assert(trim_start(l) == l);
}

/// The validation body spells out no line that opens another section.
pub open spec fn body_stays_in_section(body: Seq<char>) -> bool {
    forall|i: int| 0 <= i < lines(body).len() ==> stays_in_section(#[trigger] lines(body)[i])
}

/// No line of the text is the validation heading.
pub open spec fn no_heading_line(text: Seq<char>) -> bool {
    forall|i: int| 0 <= i < lines(text).len() ==> trim(#[trigger] lines(text)[i]) != validation_heading()
}

/// Stripping the section that `constrain_report` appended gives back the
/// report it was appended to.
proof fn lemma_strip_appended(r: Seq<char>, body: Seq<char>)
    requires
        trim(r) == r,
        r.len() == 0 || !is_ws(r.last()),
        !ends_with(r, rule()),
        no_heading_line(r),
        join(lines(r), seq!['\n']) == r,
        body_stays_in_section(body),
    ensures
        strip_section_spec(r + RULE_AND_HEADING@ + body) == r,
{
    reveal_strlit("\n\n---\n\n## 证据校验\n");
    let nl = seq!['\n'];
    let dashes = rule();
    let heading = validation_heading();
    let empty = Seq::<char>::empty();
    assert(RULE_AND_HEADING@ =~= nl + nl + dashes + nl + nl + heading + nl);
    // Lines of the appended section.
    let y = empty + nl + (dashes + nl + (empty + nl + (heading + nl + body)));
    assert forall|i: int| 0 <= i < heading.len() implies #[trigger] heading[i] != '\n' by {}
    lemma_lines_cons(heading, body);
    lemma_lines_cons(empty, heading + nl + body);
    assert(empty + nl + (heading + nl + body) =~= empty + nl + heading + nl + body);
    lemma_lines_cons(dashes, empty + nl + (heading + nl + body));
    lemma_lines_cons(empty, dashes + nl + (empty + nl + (heading + nl + body)));
    let tail_lines = seq![empty, dashes, empty, heading];
    assert(lines(y) =~= tail_lines + lines(body)) by {
        assert(dashes + nl + (empty + nl + (heading + nl + body)) =~= dashes + nl + (empty + nl
            + heading + nl + body));
    }
    let o = r + RULE_AND_HEADING@ + body;
    // Facts on trimmed lines.
    assert(trim(empty) =~= empty);
    lemma_trim_literal(dashes);
    lemma_trim_literal(heading);
    assert(trim(empty) != heading);
    assert(trim(dashes) != heading);
    lemma_kept_skip_all(lines(body));
    let kept3 = kept_lines(tail_lines + lines(body), false);
    assert(kept3 =~= seq![empty, dashes, empty]) by {
        let x1 = tail_lines + lines(body);
        assert(x1[0] == empty);
        assert(x1.drop_first() =~= seq![dashes, empty, heading] + lines(body));
        let x2 = x1.drop_first();
        assert(x2[0] == dashes);
        assert(x2.drop_first() =~= seq![empty, heading] + lines(body));
        let x3 = x2.drop_first();
        assert(x3[0] == empty);
        assert(x3.drop_first() =~= seq![heading] + lines(body));
        let x4 = x3.drop_first();
        assert(x4[0] == heading);
        assert(x4.drop_first() =~= lines(body));
        assert(kept_lines(x4, false) == kept_lines(lines(body), true));
        assert(kept_lines(x4, false) =~= Seq::<Seq<char>>::empty());
        assert(kept_lines(x3, false) == seq![empty] + kept_lines(x4, false));
        assert(kept_lines(x2, false) == seq![dashes] + kept_lines(x3, false));
        assert(kept_lines(x1, false) == seq![empty] + kept_lines(x2, false));
    }
    assert(join(kept3, nl) =~= nl + dashes + nl) by {
        let k1 = kept3.drop_first();
        let k2 = k1.drop_first();
        assert(k1 =~= seq![dashes, empty]);
        assert(k2 =~= seq![empty]);
        assert(join(k2, nl) == empty);
        assert(join(k1, nl) == dashes + nl + join(k2, nl));
        assert(join(kept3, nl) == empty + nl + join(k1, nl));
    }
    if r.len() == 0 {
        assert(o =~= empty + nl + y);
        lemma_lines_cons(empty, y);
        let x0 = seq![empty] + (tail_lines + lines(body));
        assert(lines(o) =~= x0);
        assert(x0[0] == empty);
        assert(x0.drop_first() =~= tail_lines + lines(body));
        let kept = kept_lines(x0, false);
        assert(kept =~= seq![empty] + kept3);
        assert(join(kept, nl) =~= nl + nl + dashes + nl) by {
            assert(kept.drop_first() =~= kept3);
            assert(kept.len() > 1);
        }
        let j = nl + nl + dashes + nl;
        let t = nl + nl + dashes;
        assert(j =~= t + nl);
        lemma_trim_end_append_ws(t, nl);
        assert(ends_with(t, rule())) by {
            assert(t.subrange(t.len() - 3, t.len() as int) =~= dashes);
        }
        assert(t.take(t.len() - 3) =~= empty + (nl + nl));
        lemma_trim_end_append_ws(empty, nl + nl);
        assert(trim_end(t.take(t.len() - 3)) =~= empty);
        assert(strip_trailing_rules(t.take(t.len() - 3)) =~= empty);
        assert(strip_trailing_rules(j) =~= empty);
        assert(trim(empty) =~= empty);
    } else {
        assert(o =~= r + nl + y);
        lemma_lines_concat(r, y);
        let lr = lines(r);
        assert(lines(o) =~= lr + (tail_lines + lines(body)));
        assert(forall|i: int| 0 <= i < lr.len() ==> trim(#[trigger] lr[i]) != heading);
        lemma_kept_prefix(lr, tail_lines + lines(body));
        assert(lr.len() > 0);
        lemma_join_append(lr, kept3, nl);
        let j = r + nl + (nl + dashes + nl);
        let t = r + nl + nl + dashes;
        assert(j =~= t + nl);
        assert(!is_ws(t.last()));
        lemma_trim_end_append_ws(t, nl);
        assert(ends_with(t, rule())) by {
            assert(t.subrange(t.len() - 3, t.len() as int) =~= dashes);
        }
        assert(t.take(t.len() - 3) =~= r + (nl + nl));
        lemma_trim_end_append_ws(r, nl + nl);
        assert(trim_end(t.take(t.len() - 3)) == r);
        assert(strip_trailing_rules(t.take(t.len() - 3)) == r);
        assert(strip_trailing_rules(j) == r);
    }
}

// ---------------------------------------------------------------------------
// The validation body opens no other section
// ---------------------------------------------------------------------------

/// `s` holds no line break.
pub open spec fn no_line_break(s: Seq<char>) -> bool {
    forall|i: int| 0 <= i < s.len() ==> #[trigger] s[i] != '\n'
}

/// Every line break of `s` but a last one opens a list item (`-`).
pub open spec fn breaks_open_items(s: Seq<char>) -> bool {
    forall|i: int| 0 <= i < s.len() - 1 && #[trigger] s[i] == '\n' ==> s[i + 1] == '-'
}

/// No id, tool name or error code of the evidence holds a line break.
pub open spec fn evidence_fields_one_line(ev: Seq<DiagnosisEvidence>) -> bool {
    forall|i: int|
        #![trigger ev[i]]
        0 <= i < ev.len() ==> no_line_break(ev[i].id@) && no_line_break(ev[i].tool_name@)
            && no_line_break(ev[i].error_code@)
}

proof fn lemma_item_lines(s: Seq<char>)
    requires
        breaks_open_items(s),
        s.len() > 0 ==> s[0] == '-',
    ensures
        forall|k: int|
            0 <= k < lines(s).len() ==> (#[trigger] lines(s)[k]).len() > 0 && lines(s)[k][0] == '-',
    decreases s.len(),
{
    if s.len() > 0 {
        lemma_line_len_props(s);
        let n = line_len(s);
        assert(n > 0);
        if n < s.len() {
            let first = strip_cr(s.take(n as int));
            assert(first[0] == s[0]);
            let rest = s.skip(n as int + 1);
            assert forall|i: int| 0 <= i < rest.len() - 1 && #[trigger] rest[i] == '\n' implies rest[i
                + 1] == '-' by {
                assert(rest[i] == s[i + n + 1]);
                assert(rest[i + 1] == s[i + n + 2]);
            }
            if rest.len() > 0 {
                assert(rest[0] == s[n as int + 1]);
            }
            lemma_item_lines(rest);
            assert(lines(s) == seq![first] + lines(rest));
            assert forall|k: int| 0 <= k < lines(s).len() implies (#[trigger] lines(s)[k]).len() > 0
                && lines(s)[k][0] == '-' by {
                if k > 0 {
                    assert(lines(s)[k] == lines(rest)[k - 1]);
                }
            }
        }
    }
}

proof fn lemma_item_line_stays(l: Seq<char>)
    requires
        l.len() > 0,
        l[0] == '-',
    ensures
        stays_in_section(l),
{
    assert(trim_start(l) == l);
    lemma_trim_end_nonempty(l);
    lemma_trim_end_len(l);
    assert(trim(l)[0] == '-');
    if starts_with(trim(l), level_two_prefix()) {
        assert(trim(l).subrange(0, 3)[0] == trim(l)[0]);
    }
}

/// Appending a part whose breaks open items, and that does not end with a
/// break, keeps the breaks opening items.
proof fn lemma_append_part(a: Seq<char>, x: Seq<char>)
    requires
        breaks_open_items(a),
        a.len() > 0,
        a.last() != '\n',
        breaks_open_items(x),
    ensures
        breaks_open_items(a + x),
        (a + x).len() > 0,
        x.len() > 0 ==> (a + x).last() == x.last(),
        x.len() == 0 ==> (a + x).last() == a.last(),
{
    let s = a + x;
    assert forall|i: int| 0 <= i < s.len() - 1 && #[trigger] s[i] == '\n' implies s[i + 1] == '-' by {
        if i < a.len() - 1 {
            assert(s[i] == a[i]);
            assert(s[i + 1] == a[i + 1]);
        } else if i == a.len() - 1 {
            assert(s[i] == a.last());
        } else {
            assert(s[i] == x[i - a.len()]);
            assert(s[i + 1] == x[i + 1 - a.len()]);
        }
    }
}

proof fn lemma_one_line_opens(x: Seq<char>)
    requires
        no_line_break(x),
    ensures
        breaks_open_items(x),
        x.len() > 0 ==> x.last() != '\n',
{
    if x.len() > 0 {
        assert(x[x.len() - 1] != '\n');
    }
}

proof fn lemma_join_one_line(parts: Seq<Seq<char>>, sep: Seq<char>)
    requires
        no_line_break(sep),
        forall|k: int| 0 <= k < parts.len() ==> no_line_break(#[trigger] parts[k]),
    ensures
        no_line_break(join(parts, sep)),
    decreases parts.len(),
{
    if parts.len() > 1 {
        assert forall|k: int| 0 <= k < parts.drop_first().len() implies no_line_break(
            #[trigger] parts.drop_first()[k],
        ) by {
            assert(parts.drop_first()[k] == parts[k + 1]);
        }
        lemma_join_one_line(parts.drop_first(), sep);
        let j = parts[0] + sep + join(parts.drop_first(), sep);
        assert(no_line_break(parts[0]));
        assert forall|i: int| 0 <= i < j.len() implies #[trigger] j[i] != '\n' by {
            if i < parts[0].len() {
                assert(j[i] == parts[0][i]);
            } else if i < parts[0].len() + sep.len() {
                assert(j[i] == sep[i - parts[0].len()]);
            } else {
                assert(j[i] == join(parts.drop_first(), sep)[i - parts[0].len() - sep.len()]);
            }
        }
    } else if parts.len() == 1 {
        assert(no_line_break(parts[0]));
    }
}

proof fn lemma_concat_one_line(a: Seq<char>, b: Seq<char>)
    requires
        no_line_break(a),
        no_line_break(b),
    ensures
        no_line_break(a + b),
{
    assert forall|i: int| 0 <= i < (a + b).len() implies #[trigger] (a + b)[i] != '\n' by {
        if i < a.len() {
            assert((a + b)[i] == a[i]);
        } else {
            assert((a + b)[i] == b[i - a.len()]);
        }
    }
}

proof fn lemma_word_chars(t: Seq<char>)
    ensures
        word_len(t) <= t.len(),
        forall|i: int| 0 <= i < word_len(t) ==> !is_ws(#[trigger] t[i]),
    decreases t.len(),
{
    if t.len() > 0 && !is_ws(t[0]) {
        lemma_word_chars(t.drop_first());
        assert forall|i: int| 0 <= i < word_len(t) implies !is_ws(#[trigger] t[i]) by {
            if i > 0 {
                assert(t[i] == t.drop_first()[i - 1]);
            }
        }
    }
}

/// A word holds no line break.
proof fn lemma_first_word_one_line(s: Seq<char>)
    ensures
        no_line_break(first_word(s)),
{
    let t = trim_start(s);
    lemma_word_chars(t);
    assert forall|i: int| 0 <= i < first_word(s).len() implies #[trigger] first_word(s)[i] != '\n' by {
        assert(first_word(s)[i] == t[i]);
        assert(!is_ws(t[i]));
    }
}

proof fn lemma_cited_one_line(rest: Seq<char>, acc: Seq<Seq<char>>)
    requires
        forall|k: int| 0 <= k < acc.len() ==> no_line_break(#[trigger] acc[k]),
    ensures
        forall|k: int|
            0 <= k < cited_ids_from(rest, acc).len() ==> no_line_break(
                #[trigger] cited_ids_from(rest, acc)[k],
            ),
    decreases rest.len(),
{
    match find_idx(rest, CITATION_MARKER@, 0) {
        None => {
            assert(cited_ids_from(rest, acc) == acc);
        },
        Some(p) => {
            let r2 = rest.skip(p + CITATION_MARKER@.len());
            match find_idx(r2, seq![']'], 0) {
                None => {
                    assert(cited_ids_from(rest, acc) == acc);
                },
                Some(e) => {
                    lemma_find_idx_bounds(rest, CITATION_MARKER@, 0);
                    lemma_find_idx_bounds(r2, seq![']'], 0);
                    let id = first_word(r2.take(e));
                    lemma_first_word_one_line(r2.take(e));
                    let acc2 = if id.len() > 0 && !acc.contains(id) {
                        acc.push(id)
                    } else {
                        acc
                    };
                    assert forall|k: int| 0 <= k < acc2.len() implies no_line_break(#[trigger] acc2[k]) by {
                        if k < acc.len() {
                            assert(acc2[k] == acc[k]);
                        }
                    }
                    lemma_cited_one_line(r2.skip(e + 1), acc2);
                    assert(cited_ids_from(rest, acc) == cited_ids_from(r2.skip(e + 1), acc2));
                },
            }
        },
    }
}

proof fn lemma_keep_ids_one_line(ids: Seq<Seq<char>>, f: spec_fn(Seq<char>) -> bool)
    requires
        forall|k: int| 0 <= k < ids.len() ==> no_line_break(#[trigger] ids[k]),
    ensures
        forall|k: int| 0 <= k < keep_ids(ids, f).len() ==> no_line_break(#[trigger] keep_ids(ids, f)[k]),
    decreases ids.len(),
{
    if ids.len() > 0 {
        assert forall|k: int| 0 <= k < ids.drop_last().len() implies no_line_break(
            #[trigger] ids.drop_last()[k],
        ) by {
            assert(ids.drop_last()[k] == ids[k]);
        }
        lemma_keep_ids_one_line(ids.drop_last(), f);
        let p = keep_ids(ids.drop_last(), f);
        assert forall|k: int| 0 <= k < keep_ids(ids, f).len() implies no_line_break(
            #[trigger] keep_ids(ids, f)[k],
        ) by {
            if k < p.len() {
                assert(keep_ids(ids, f)[k] == p[k]);
            } else {
                assert(keep_ids(ids, f)[k] == ids[ids.len() - 1]);
            }
        }
    }
}

proof fn lemma_list_one_line(items: Seq<Seq<char>>, sep: Seq<char>)
    requires
        no_line_break(sep),
        forall|k: int| 0 <= k < items.len() ==> no_line_break(#[trigger] items[k]),
    ensures
        no_line_break(list_or_none(items, sep)),
{
    reveal_strlit("无");
    if items.len() > 0 {
        lemma_join_one_line(items, sep);
    }
}

/// The fixed texts of the validation body hold no line break.
proof fn lemma_fixed_texts_one_line()
    ensures
        no_line_break(", "@),
        no_line_break("; "@),
        no_line_break("("@),
        no_line_break(")"@),
        no_line_break(","@),
        no_line_break("success"@),
        no_line_break("failed"@),
        no_line_break("success=false"@),
        no_line_break("unusable"@),
        no_line_break(MISSING_ANY_CITATION@),
        no_line_break(MISSING_METRIC_TREND@),
        no_line_break(MISSING_LOGS@),
        no_line_break(MISSING_JVM@),
        no_line_break("失败"@),
        no_line_break("需补证"@),
        no_line_break("通过"@),
        no_line_break("低"@),
        no_line_break("高"@),
        no_line_break("中"@),
{
    reveal_strlit(", ");
    reveal_strlit("; ");
    reveal_strlit("(");
    reveal_strlit(")");
    reveal_strlit(",");
    reveal_strlit("success");
    reveal_strlit("failed");
    reveal_strlit("success=false");
    reveal_strlit("unusable");
    reveal_strlit("报告没有引用任何工具 evidence id");
    reveal_strlit("资源类结论缺少成功的 queryMetricTrend 趋势 evidence");
    reveal_strlit("日志/异常结论缺少成功的 queryLogs evidence");
    reveal_strlit("GC/Full GC 结论缺少对应日志或 JVM 指标 evidence");
    reveal_strlit("失败");
    reveal_strlit("需补证");
    reveal_strlit("通过");
    reveal_strlit("低");
    reveal_strlit("高");
    reveal_strlit("中");
}

/// The labels of the validation body: the first opens an item; each other
/// begins a line that opens an item; none ends with a break.
proof fn lemma_labels_open_items()
    ensures
        STATUS_LABEL@.len() > 0 && STATUS_LABEL@[0] == '-' && no_line_break(STATUS_LABEL@),
        breaks_open_items(CONFIDENCE_LABEL@) && CONFIDENCE_LABEL@.len() > 0 && CONFIDENCE_LABEL@.last() != '\n',
        breaks_open_items(CITED_LABEL@) && CITED_LABEL@.len() > 0 && CITED_LABEL@.last() != '\n',
        breaks_open_items(UNKNOWN_LABEL@) && UNKNOWN_LABEL@.len() > 0 && UNKNOWN_LABEL@.last() != '\n',
        breaks_open_items(INVALID_LABEL@) && INVALID_LABEL@.len() > 0 && INVALID_LABEL@.last() != '\n',
        breaks_open_items(MISSING_LABEL@) && MISSING_LABEL@.len() > 0 && MISSING_LABEL@.last() != '\n',
        breaks_open_items(AVAILABLE_LABEL@) && AVAILABLE_LABEL@.len() > 0 && AVAILABLE_LABEL@.last() != '\n',
        breaks_open_items(SECTION_TAIL@),
{
    reveal_strlit("- 校验状态: ");
    reveal_strlit("\n- 置信度: ");
    reveal_strlit("\n- 已引用证据: ");
    reveal_strlit("\n- 未知证据: ");
    reveal_strlit("\n- 无效/失败证据: ");
    reveal_strlit("\n- 缺失证据: ");
    reveal_strlit("\n- 可用证据: ");
    reveal_strlit("\n- 约束说明: 以上校验仅基于已持久化的工具 evidence；未被 evidence 支撑的结论应按证据不足处理。\n");
}

proof fn lemma_keep_one_line(ev: Seq<DiagnosisEvidence>, f: spec_fn(DiagnosisEvidence) -> bool)
    requires
        evidence_fields_one_line(ev),
    ensures
        evidence_fields_one_line(keep(ev, f)),
    decreases ev.len(),
{
    if ev.len() > 0 {
        assert(evidence_fields_one_line(ev.drop_last())) by {
            assert forall|i: int| 0 <= i < ev.drop_last().len() implies no_line_break(
                #[trigger] ev.drop_last()[i].id@,
            ) && no_line_break(ev.drop_last()[i].tool_name@) && no_line_break(
                ev.drop_last()[i].error_code@,
            ) by {
                assert(ev.drop_last()[i] == ev[i]);
            }
        }
        lemma_keep_one_line(ev.drop_last(), f);
        let p = keep(ev.drop_last(), f);
        let k = keep(ev, f);
        assert forall|i: int| 0 <= i < k.len() implies no_line_break(#[trigger] k[i].id@)
            && no_line_break(k[i].tool_name@) && no_line_break(k[i].error_code@) by {
            if i < p.len() {
                assert(k[i] == p[i]);
            } else {
                assert(k[i] == ev[ev.len() - 1]);
            }
        }
    }
}

proof fn lemma_invalid_summary_one_line(invalid: Seq<Seq<char>>, tool: Seq<DiagnosisEvidence>)
    requires
        forall|k: int| 0 <= k < invalid.len() ==> no_line_break(#[trigger] invalid[k]),
        evidence_fields_one_line(tool),
    ensures
        no_line_break(invalid_summary_spec(invalid, tool)),
{
    reveal_strlit("无");
    lemma_fixed_texts_one_line();
    if invalid.len() > 0 {
        let items = invalid.map_values(|id: Seq<char>| invalid_item(id, tool));
        assert forall|k: int| 0 <= k < items.len() implies no_line_break(#[trigger] items[k]) by {
            let id = invalid[k];
            assert(items[k] == invalid_item(id, tool));
            let r = invalid_reason(id, tool);
            match crate::diagnosis_report::first_with_id(tool, id) {
                Some(j) => {
                    crate::diagnosis_report::lemma_first_with_id_bounds(tool, id);
                    assert(no_line_break(tool[j].error_code@));
                },
                None => {},
            }
            assert(no_line_break(r));
            lemma_concat_one_line(id, "("@);
            lemma_concat_one_line(id + "("@, r);
            lemma_concat_one_line(id + "("@ + r, ")"@);
        }
        lemma_join_one_line(items, ", "@);
    }
}

proof fn lemma_available_summary_one_line(usable: Seq<DiagnosisEvidence>)
    requires
        evidence_fields_one_line(usable),
    ensures
        no_line_break(available_summary_spec(usable)),
{
    reveal_strlit("无");
    lemma_fixed_texts_one_line();
    if usable.len() > 0 {
        let items = usable.map_values(|e: DiagnosisEvidence| available_item(e));
        assert forall|k: int| 0 <= k < items.len() implies no_line_break(#[trigger] items[k]) by {
            let e = usable[k];
            assert(items[k] == available_item(e));
            let st: Seq<char> = if e.success {
                "success"@
            } else {
                "failed"@
            };
            let code: Seq<char> = if e.error_code@.len() == 0 {
                Seq::empty()
            } else {
                ","@ + e.error_code@
            };
            lemma_concat_one_line(","@, e.error_code@);
            assert(no_line_break(code));
            lemma_concat_one_line(e.id@, "("@);
            lemma_concat_one_line(e.id@ + "("@, e.tool_name@);
            lemma_concat_one_line(e.id@ + "("@ + e.tool_name@, ","@);
            lemma_concat_one_line(e.id@ + "("@ + e.tool_name@ + ","@, st);
            lemma_concat_one_line(e.id@ + "("@ + e.tool_name@ + ","@ + st, code);
            lemma_concat_one_line(e.id@ + "("@ + e.tool_name@ + ","@ + st + code, ")"@);
        }
        lemma_join_one_line(items, ", "@);
    }
}

/// Where no id, tool name or error code of the evidence holds a line break,
/// every line of the validation body opens a list item.
proof fn lemma_body_lines_are_items(safe: Seq<char>, ev: Seq<DiagnosisEvidence>)
    requires
        evidence_fields_one_line(ev),
    ensures
        forall|k: int|
            0 <= k < lines(validation_body(safe, ev)).len() ==> (#[trigger] lines(
                validation_body(safe, ev),
            )[k]).len() > 0 && lines(validation_body(safe, ev))[k][0] == '-',
{
    lemma_fixed_texts_one_line();
    lemma_labels_open_items();
    let c = check_citations(safe, ev);
    let tool = tool_evidence_spec(ev);
    let usable = usable_evidence_spec(ev);
    lemma_keep_one_line(ev, |e: DiagnosisEvidence| is_tool_evidence(e));
    lemma_keep_one_line(ev, |e: DiagnosisEvidence| is_usable(e));
    let missing = crate::diagnosis_report::missing_evidence_spec(safe, usable, c.known, tool);
    lemma_cited_one_line(safe, Seq::empty());
    let cited = cited_ids(safe);
    lemma_keep_ids_one_line(cited, |x: Seq<char>| !crate::diagnosis_report::names_item(tool, x));
    lemma_keep_ids_one_line(
        cited,
        |x: Seq<char>| crate::diagnosis_report::names_item(tool, x) && !crate::diagnosis_report::names_item(usable, x),
    );
    lemma_keep_ids_one_line(cited, |x: Seq<char>| !c.unknown.contains(x) && !c.invalid.contains(x));
    assert forall|k: int| 0 <= k < missing.len() implies no_line_break(#[trigger] missing[k]) by {}
    let v1 = validation_status_spec(c.unknown, c.invalid, missing);
    let v2 = confidence_spec(c.unknown, c.invalid, missing, c.known);
    let v3 = list_or_none(c.known, ", "@);
    let v4 = list_or_none(c.unknown, ", "@);
    let v5 = invalid_summary_spec(c.invalid, tool);
    let v6 = list_or_none(missing, "; "@);
    let v7 = available_summary_spec(usable);
    lemma_list_one_line(c.known, ", "@);
    lemma_list_one_line(c.unknown, ", "@);
    lemma_invalid_summary_one_line(c.invalid, tool);
    lemma_list_one_line(missing, "; "@);
    lemma_available_summary_one_line(usable);
    assert(no_line_break(v1));
    assert(no_line_break(v2));
    let a0 = STATUS_LABEL@;
    lemma_one_line_opens(a0);
    lemma_one_line_opens(v1);
    lemma_one_line_opens(v2);
    lemma_one_line_opens(v3);
    lemma_one_line_opens(v4);
    lemma_one_line_opens(v5);
    lemma_one_line_opens(v6);
    lemma_one_line_opens(v7);
    lemma_append_part(a0, v1);
    let a1 = a0 + v1;
    lemma_append_part(a1, CONFIDENCE_LABEL@);
    let a2 = a1 + CONFIDENCE_LABEL@;
    lemma_append_part(a2, v2);
    let a3 = a2 + v2;
    lemma_append_part(a3, CITED_LABEL@);
    let a4 = a3 + CITED_LABEL@;
    lemma_append_part(a4, v3);
    let a5 = a4 + v3;
    lemma_append_part(a5, UNKNOWN_LABEL@);
    let a6 = a5 + UNKNOWN_LABEL@;
    lemma_append_part(a6, v4);
    let a7 = a6 + v4;
    lemma_append_part(a7, INVALID_LABEL@);
    let a8 = a7 + INVALID_LABEL@;
    lemma_append_part(a8, v5);
    let a9 = a8 + v5;
    lemma_append_part(a9, MISSING_LABEL@);
    let a10 = a9 + MISSING_LABEL@;
    lemma_append_part(a10, v6);
    let a11 = a10 + v6;
    lemma_append_part(a11, AVAILABLE_LABEL@);
    let a12 = a11 + AVAILABLE_LABEL@;
    lemma_append_part(a12, v7);
    let a13 = a12 + v7;
    lemma_append_part(a13, SECTION_TAIL@);
    let body = a13 + SECTION_TAIL@;
    assert(body == validation_body(safe, ev));
    assert(body[0] == a0[0]);
    lemma_item_lines(body);
}

/// Where no id, tool name or error code of the evidence holds a line break,
/// the validation body opens no other level-two section.
pub proof fn lemma_body_stays_in_section(safe: Seq<char>, ev: Seq<DiagnosisEvidence>)
    requires
        evidence_fields_one_line(ev),
    ensures
        body_stays_in_section(validation_body(safe, ev)),
{
    lemma_body_lines_are_items(safe, ev);
    let body = validation_body(safe, ev);
    assert forall|i: int| 0 <= i < lines(body).len() implies stays_in_section(#[trigger] lines(body)[i]) by {
        lemma_item_line_stays(lines(body)[i]);
    }
}

/// A line opening a list item is not the validation heading.
proof fn lemma_item_line_not_heading(l: Seq<char>)
    requires
        l.len() > 0,
        l[0] == '-',
    ensures
        trim(l) != validation_heading(),
{
    assert(trim_start(l) == l);
    lemma_trim_end_nonempty(l);
    lemma_trim_end_len(l);
    assert(trim(l)[0] == '-');
}

/// Law: guarding a report a second time changes nothing, as long as the
/// stripped report keeps its line breaks as they are and holds no line that
/// reads as the validation heading, and no evidence id, tool name or error
/// code holds a line break.
pub proof fn law_constrain_report_idempotent(report: Seq<char>, ev: Seq<DiagnosisEvidence>)
    requires
        no_heading_line(strip_section_spec(report)),
        join(lines(strip_section_spec(report)), seq!['\n']) == strip_section_spec(report),
        evidence_fields_one_line(ev),
    ensures
        constrain_spec(constrain_spec(report, ev), ev) == constrain_spec(report, ev),
{
    let r = strip_section_spec(report);
    lemma_body_stays_in_section(r, ev);
    lemma_stripped_shape(report);
    let body = validation_body(r, ev);
    lemma_strip_appended(r, body);
    assert(constrain_spec(report, ev) =~= r + RULE_AND_HEADING@ + body);
}

/// The lines of a stripped report with the validation section appended:
/// those of the report (one empty line for an empty report), the blank,
/// rule, blank and heading lines, then those of the body.
proof fn lemma_guarded_lines(r: Seq<char>, body: Seq<char>)
    requires
        r.len() == 0 || (!is_ws(r.last()) && r.last() != '\n'),
    ensures
        lines(r + RULE_AND_HEADING@ + body) == (if r.len() == 0 {
            seq![Seq::<char>::empty()]
        } else {
            lines(r)
        }) + seq![Seq::<char>::empty(), rule(), Seq::<char>::empty(), validation_heading()] + lines(body),
{
    reveal_strlit("\n\n---\n\n## 证据校验\n");
    let nl = seq!['\n'];
    let dashes = rule();
    let heading = validation_heading();
    let empty = Seq::<char>::empty();
    assert(RULE_AND_HEADING@ =~= nl + nl + dashes + nl + nl + heading + nl);
    let y = empty + nl + (dashes + nl + (empty + nl + (heading + nl + body)));
    assert forall|i: int| 0 <= i < heading.len() implies #[trigger] heading[i] != '\n' by {}
    lemma_lines_cons(heading, body);
    lemma_lines_cons(empty, heading + nl + body);
    assert(empty + nl + (heading + nl + body) =~= empty + nl + heading + nl + body);
    lemma_lines_cons(dashes, empty + nl + (heading + nl + body));
    lemma_lines_cons(empty, dashes + nl + (empty + nl + (heading + nl + body)));
    let tail_lines = seq![empty, dashes, empty, heading];
    assert(lines(y) =~= tail_lines + lines(body)) by {
        assert(dashes + nl + (empty + nl + (heading + nl + body)) =~= dashes + nl + (empty + nl
            + heading + nl + body));
    }
    let o = r + RULE_AND_HEADING@ + body;
    if r.len() == 0 {
        assert(o =~= empty + nl + y);
        lemma_lines_cons(empty, y);
    } else {
        assert(r.last() != '\r');
        assert(o =~= r + nl + y);
        lemma_lines_concat(r, y);
    }
}

/// Law: where the premises of idempotence hold, the guarded report has
/// exactly one line that reads as the validation heading.
pub proof fn law_one_validation_heading(report: Seq<char>, ev: Seq<DiagnosisEvidence>)
    requires
        no_heading_line(strip_section_spec(report)),
        evidence_fields_one_line(ev),
    ensures
        ({
            let ls = lines(constrain_spec(report, ev));
            exists|k: int|
                0 <= k < ls.len() && trim(#[trigger] ls[k]) == validation_heading() && forall|j: int|
                    0 <= j < ls.len() && j != k ==> trim(#[trigger] ls[j]) != validation_heading()
        }),
{
    let r = strip_section_spec(report);
    lemma_stripped_shape(report);
    let body = validation_body(r, ev);
    lemma_body_lines_are_items(r, ev);
    if r.len() > 0 {
        assert(!is_ws(r.last()));
    }
    lemma_guarded_lines(r, body);
    let heading = validation_heading();
    let empty = Seq::<char>::empty();
    let dashes = rule();
    assert(constrain_spec(report, ev) =~= r + RULE_AND_HEADING@ + body);
    let front = if r.len() == 0 {
        seq![empty]
    } else {
        lines(r)
    };
    let ls = front + seq![empty, dashes, empty, heading] + lines(body);
    assert(lines(constrain_spec(report, ev)) == ls);
    assert(trim(empty) =~= empty);
    lemma_trim_literal(dashes);
    lemma_trim_literal(heading);
    let k: int = front.len() + 3int;
    assert(ls[k] == heading);
    assert forall|j: int| 0 <= j < ls.len() && j != k implies trim(#[trigger] ls[j]) != heading by {
        if j < front.len() {
            assert(ls[j] == front[j]);
            if r.len() == 0 {
                assert(front[j] == empty);
            }
        } else if j < front.len() + 3 {
        } else {
            let l = lines(body)[j - front.len() - 4];
            assert(ls[j] == l);
            lemma_item_line_not_heading(l);
        }
    }
}

// ---------------------------------------------------------------------------
// The verdict lines
// ---------------------------------------------------------------------------

/// The first line of `p`, a newline and `b`, where `p` holds no newline, is
/// `p` (less a final `\r`); the lines of `b` follow.
proof fn lemma_lines_first(p: Seq<char>, b: Seq<char>)
    requires
        no_line_break(p),
    ensures
        lines(p + seq!['\n'] + b) == seq![strip_cr(p)] + lines(b),
{
    let s = p + seq!['\n'] + b;
    assert forall|i: int| 0 <= i < p.len() implies #[trigger] s[i] != '\n' by {
        assert(s[i] == p[i]);
    }
    assert(s[p.len() as int] == '\n');
    crate::text::lemma_line_len(s, p.len() as int);
    assert(s.take(p.len() as int) =~= p);
    assert(s.skip(p.len() as int + 1) =~= b);
}

/// `keep_ids` keeps an id exactly where some id satisfies `f`.
proof fn lemma_keep_ids_nonempty(ids: Seq<Seq<char>>, f: spec_fn(Seq<char>) -> bool)
    ensures
        keep_ids(ids, f).len() > 0 <==> exists|i: int| 0 <= i < ids.len() && f(#[trigger] ids[i]),
    decreases ids.len(),
{
    if ids.len() > 0 {
        let d = ids.drop_last();
        lemma_keep_ids_nonempty(d, f);
        if exists|i: int| 0 <= i < d.len() && f(#[trigger] d[i]) {
            let i = choose|i: int| 0 <= i < d.len() && f(#[trigger] d[i]);
            assert(ids[i] == d[i]);
        }
        if exists|i: int| 0 <= i < ids.len() && f(#[trigger] ids[i]) {
            let i = choose|i: int| 0 <= i < ids.len() && f(#[trigger] ids[i]);
            if i < ids.len() - 1 {
                assert(d[i] == ids[i]);
            }
        }
    }
}

/// An id that names usable evidence names tool evidence.
proof fn lemma_usable_names_tool(ev: Seq<DiagnosisEvidence>, x: Seq<char>)
    requires
        names_item(usable_evidence_spec(ev), x),
    ensures
        names_item(tool_evidence_spec(ev), x),
{
    let usable = usable_evidence_spec(ev);
    let tool = tool_evidence_spec(ev);
    lemma_keep_members(ev, |e: DiagnosisEvidence| is_usable(e));
    lemma_keep_members(ev, |e: DiagnosisEvidence| is_tool_evidence(e));
    let i = choose|i: int| 0 <= i < usable.len() && #[trigger] usable[i].id@ == x;
    let j = choose|j: int| 0 <= j < ev.len() && ev[j] == #[trigger] usable[i];
    assert(is_usable(usable[i]));
    assert(tool.contains(ev[j]));
    let k = choose|k: int| 0 <= k < tool.len() && tool[k] == ev[j];
    assert(tool[k].id@ == x);
}

/// What the validation body finds missing.
spec fn body_missing(safe: Seq<char>, ev: Seq<DiagnosisEvidence>) -> Seq<Seq<char>> {
    missing_evidence_spec(
        safe,
        usable_evidence_spec(ev),
        check_citations(safe, ev).known,
        tool_evidence_spec(ev),
    )
}

/// Whether the citations fail the report.
spec fn body_fails(safe: Seq<char>, ev: Seq<DiagnosisEvidence>) -> bool {
    check_citations(safe, ev).unknown.len() > 0 || check_citations(safe, ev).invalid.len() > 0
}

/// The values on the first six lines of the validation body hold no line
/// break.
proof fn lemma_body_values_one_line(safe: Seq<char>, ev: Seq<DiagnosisEvidence>)
    requires
        evidence_fields_one_line(ev),
    ensures
        ({
            let c = check_citations(safe, ev);
            let missing = body_missing(safe, ev);
            &&& no_line_break(validation_status_spec(c.unknown, c.invalid, missing))
            &&& no_line_break(confidence_spec(c.unknown, c.invalid, missing, c.known))
            &&& no_line_break(list_or_none(c.known, ", "@))
            &&& no_line_break(list_or_none(c.unknown, ", "@))
            &&& no_line_break(invalid_summary_spec(c.invalid, tool_evidence_spec(ev)))
            &&& no_line_break(list_or_none(missing, "; "@))
        }),
{
    lemma_fixed_texts_one_line();
    let c = check_citations(safe, ev);
    let tool = tool_evidence_spec(ev);
    let usable = usable_evidence_spec(ev);
    lemma_keep_one_line(ev, |e: DiagnosisEvidence| is_tool_evidence(e));
    lemma_keep_one_line(ev, |e: DiagnosisEvidence| is_usable(e));
    let missing = body_missing(safe, ev);
    lemma_cited_one_line(safe, Seq::empty());
    let cited = cited_ids(safe);
    lemma_keep_ids_one_line(cited, |x: Seq<char>| !names_item(tool, x));
    lemma_keep_ids_one_line(cited, |x: Seq<char>| names_item(tool, x) && !names_item(usable, x));
    lemma_keep_ids_one_line(cited, |x: Seq<char>| !c.unknown.contains(x) && !c.invalid.contains(x));
    assert forall|k: int| 0 <= k < missing.len() implies no_line_break(#[trigger] missing[k]) by {}
    lemma_list_one_line(c.known, ", "@);
    lemma_list_one_line(c.unknown, ", "@);
    lemma_invalid_summary_one_line(c.invalid, tool);
    lemma_list_one_line(missing, "; "@);
}

/// The lines of a validation body with the given values: the status, the
/// confidence and, sixth, the missing evidence come first.
proof fn lemma_body_text_lines(
    v1: Seq<char>,
    v2: Seq<char>,
    v3: Seq<char>,
    v4: Seq<char>,
    v5: Seq<char>,
    v6: Seq<char>,
    v7: Seq<char>,
)
    requires
        no_line_break(v1),
        no_line_break(v2),
        no_line_break(v3),
        no_line_break(v4),
        no_line_break(v5),
        no_line_break(v6),
    ensures
        ({
            let lb = lines(
                STATUS_LABEL@ + v1 + CONFIDENCE_LABEL@ + v2 + CITED_LABEL@ + v3 + UNKNOWN_LABEL@ + v4
                    + INVALID_LABEL@ + v5 + MISSING_LABEL@ + v6 + AVAILABLE_LABEL@ + v7
                    + SECTION_TAIL@,
            );
            &&& lb.len() > 6
            &&& lb[0] == strip_cr(STATUS_LABEL@ + v1)
            &&& lb[1] == strip_cr("- 置信度: "@ + v2)
            &&& lb[5] == strip_cr("- 缺失证据: "@ + v6)
        }),
{
    lemma_fixed_texts_one_line();
    reveal_strlit("- 校验状态: ");
    reveal_strlit("\n- 置信度: ");
    reveal_strlit("\n- 已引用证据: ");
    reveal_strlit("\n- 未知证据: ");
    reveal_strlit("\n- 无效/失败证据: ");
    reveal_strlit("\n- 缺失证据: ");
    reveal_strlit("\n- 可用证据: ");
    reveal_strlit("- 置信度: ");
    reveal_strlit("- 已引用证据: ");
    reveal_strlit("- 未知证据: ");
    reveal_strlit("- 无效/失败证据: ");
    reveal_strlit("- 缺失证据: ");
    let nl = seq!['\n'];
    let l1 = "- 置信度: "@;
    let l2 = "- 已引用证据: "@;
    let l3 = "- 未知证据: "@;
    let l4 = "- 无效/失败证据: "@;
    let l5 = "- 缺失证据: "@;
    let la = AVAILABLE_LABEL@.drop_first();
    assert(CONFIDENCE_LABEL@ =~= nl + l1);
    assert(CITED_LABEL@ =~= nl + l2);
    assert(UNKNOWN_LABEL@ =~= nl + l3);
    assert(INVALID_LABEL@ =~= nl + l4);
    assert(MISSING_LABEL@ =~= nl + l5);
    assert(AVAILABLE_LABEL@ =~= nl + la);
    let s0 = STATUS_LABEL@ + v1;
    let s1 = l1 + v2;
    let s2 = l2 + v3;
    let s3 = l3 + v4;
    let s4 = l4 + v5;
    let s5 = l5 + v6;
    let rest = la + v7 + SECTION_TAIL@;
    let t5 = s5 + nl + rest;
    let t4 = s4 + nl + t5;
    let t3 = s3 + nl + t4;
    let t2 = s2 + nl + t3;
    let t1 = s1 + nl + t2;
    assert(STATUS_LABEL@ + v1 + CONFIDENCE_LABEL@ + v2 + CITED_LABEL@ + v3 + UNKNOWN_LABEL@ + v4
        + INVALID_LABEL@ + v5 + MISSING_LABEL@ + v6 + AVAILABLE_LABEL@ + v7 + SECTION_TAIL@
        =~= s0 + nl + t1);
    lemma_concat_one_line(STATUS_LABEL@, v1);
    lemma_concat_one_line(l1, v2);
    lemma_concat_one_line(l2, v3);
    lemma_concat_one_line(l3, v4);
    lemma_concat_one_line(l4, v5);
    lemma_concat_one_line(l5, v6);
    lemma_lines_first(s5, rest);
    lemma_lines_first(s4, t5);
    lemma_lines_first(s3, t4);
    lemma_lines_first(s2, t3);
    lemma_lines_first(s1, t2);
    lemma_lines_first(s0, t1);
}

/// The first lines of the validation body: status, confidence, and, sixth,
/// the missing evidence.
proof fn lemma_body_first_lines(safe: Seq<char>, ev: Seq<DiagnosisEvidence>)
    requires
        evidence_fields_one_line(ev),
    ensures
        ({
            let c = check_citations(safe, ev);
            let missing = body_missing(safe, ev);
            let lb = lines(validation_body(safe, ev));
            &&& lb.len() > 6
            &&& lb[0] == strip_cr(STATUS_LABEL@ + validation_status_spec(c.unknown, c.invalid, missing))
            &&& lb[1] == strip_cr("- 置信度: "@ + confidence_spec(c.unknown, c.invalid, missing, c.known))
            &&& lb[5] == strip_cr("- 缺失证据: "@ + list_or_none(missing, "; "@))
        }),
{
    let c = check_citations(safe, ev);
    let tool = tool_evidence_spec(ev);
    let missing = body_missing(safe, ev);
    lemma_body_values_one_line(safe, ev);
    lemma_body_text_lines(
        validation_status_spec(c.unknown, c.invalid, missing),
        confidence_spec(c.unknown, c.invalid, missing, c.known),
        list_or_none(c.known, ", "@),
        list_or_none(c.unknown, ", "@),
        invalid_summary_spec(c.invalid, tool),
        list_or_none(missing, "; "@),
        available_summary_spec(usable_evidence_spec(ev)),
    );
}

/// The verdict words on those lines.
proof fn lemma_verdict_words(safe: Seq<char>, ev: Seq<DiagnosisEvidence>)
    ensures
        ({
            let c = check_citations(safe, ev);
            let missing = body_missing(safe, ev);
            let status = strip_cr(STATUS_LABEL@ + validation_status_spec(c.unknown, c.invalid, missing));
            let conf = strip_cr("- 置信度: "@ + confidence_spec(c.unknown, c.invalid, missing, c.known));
            let miss = strip_cr("- 缺失证据: "@ + list_or_none(missing, "; "@));
            &&& body_fails(safe, ev) ==> status == "- 校验状态: 失败"@ && conf == "- 置信度: 低"@
            &&& !body_fails(safe, ev) && missing.len() > 0 ==> status == "- 校验状态: 需补证"@
                && conf != "- 置信度: 低"@ && miss != "- 缺失证据: 无"@
            &&& !body_fails(safe, ev) && missing.len() == 0 ==> status == "- 校验状态: 通过"@
                && conf != "- 置信度: 低"@ && miss == "- 缺失证据: 无"@
            &&& missing.len() > 0 ==> miss != "- 缺失证据: 无"@
            &&& "- 校验状态: 失败"@ != "- 校验状态: 需补证"@
            &&& "- 校验状态: 失败"@ != "- 校验状态: 通过"@
            &&& "- 校验状态: 需补证"@ != "- 校验状态: 通过"@
        }),
{
    let c = check_citations(safe, ev);
    let missing = body_missing(safe, ev);
    let v1 = validation_status_spec(c.unknown, c.invalid, missing);
    let v2 = confidence_spec(c.unknown, c.invalid, missing, c.known);
    let v6 = list_or_none(missing, "; "@);
    let s0 = STATUS_LABEL@ + v1;
    let s1 = "- 置信度: "@ + v2;
    let s5 = "- 缺失证据: "@ + v6;
    reveal_strlit("报告没有引用任何工具 evidence id");
    reveal_strlit("资源类结论缺少成功的 queryMetricTrend 趋势 evidence");
    reveal_strlit("日志/异常结论缺少成功的 queryLogs evidence");
    reveal_strlit("GC/Full GC 结论缺少对应日志或 JVM 指标 evidence");
    reveal_strlit("- 校验状态: ");
    reveal_strlit("- 置信度: ");
    reveal_strlit("- 缺失证据: ");
    reveal_strlit("失败");
    reveal_strlit("需补证");
    reveal_strlit("通过");
    reveal_strlit("低");
    reveal_strlit("高");
    reveal_strlit("中");
    reveal_strlit("无");
    reveal_strlit("- 校验状态: 失败");
    reveal_strlit("- 校验状态: 需补证");
    reveal_strlit("- 校验状态: 通过");
    reveal_strlit("- 置信度: 低");
    reveal_strlit("- 缺失证据: 无");
    assert("- 校验状态: 通过"@[8] != "- 校验状态: 失败"@[8]);
    if body_fails(safe, ev) {
        assert(s0 =~= "- 校验状态: 失败"@);
        assert(s1 =~= "- 置信度: 低"@);
    } else if missing.len() > 0 {
        assert(s0 =~= "- 校验状态: 需补证"@);
        assert(s1[7] != '低');
        assert(s1.len() == 8);
        assert(missing[0].len() > 2);
        assert(v6.len() >= missing[0].len());
        assert(strip_cr(s5).len() > 9);
    } else {
        assert(s0 =~= "- 校验状态: 通过"@);
        assert(s1[7] != '低');
        assert(s1.len() == 8);
        assert(s5 =~= "- 缺失证据: 无"@);
    }
    if missing.len() > 0 {
        assert(missing[0].len() > 2);
        assert(v6.len() >= missing[0].len());
        assert(strip_cr(s5).len() > 9);
    }
}

/// The citations fail the report exactly where it cites an id that names
/// no usable tool evidence.
proof fn lemma_fails_iff_unusable_citation(safe: Seq<char>, ev: Seq<DiagnosisEvidence>)
    ensures
        body_fails(safe, ev) <==> exists|i: int|
            0 <= i < cited_ids(safe).len() && !names_item(
                usable_evidence_spec(ev),
                #[trigger] cited_ids(safe)[i],
            ),
{
    let tool = tool_evidence_spec(ev);
    let usable = usable_evidence_spec(ev);
    let cited = cited_ids(safe);
    let c = check_citations(safe, ev);
    let f_unknown = |x: Seq<char>| !names_item(tool, x);
    let f_invalid = |x: Seq<char>| names_item(tool, x) && !names_item(usable, x);
    assert(c.unknown == keep_ids(cited, f_unknown));
    assert(c.invalid == keep_ids(cited, f_invalid));
    lemma_keep_ids_nonempty(cited, f_unknown);
    lemma_keep_ids_nonempty(cited, f_invalid);
    if exists|i: int| 0 <= i < cited.len() && !names_item(usable, #[trigger] cited[i]) {
        let i = choose|i: int| 0 <= i < cited.len() && !names_item(usable, #[trigger] cited[i]);
        if names_item(tool, cited[i]) {
            assert(f_invalid(cited[i]));
        } else {
            assert(f_unknown(cited[i]));
        }
    }
    if c.unknown.len() > 0 {
        let i = choose|i: int| 0 <= i < cited.len() && f_unknown(#[trigger] cited[i]);
        if names_item(usable, cited[i]) {
            lemma_usable_names_tool(ev, cited[i]);
        }
        assert(!names_item(usable, cited[i]));
    } else if c.invalid.len() > 0 {
        let i = choose|i: int| 0 <= i < cited.len() && f_invalid(#[trigger] cited[i]);
        assert(!names_item(usable, cited[i]));
    }
}

/// Law: under the validation heading, the status line reads `失败` exactly
/// where the confidence line reads `低`, and exactly where the report (its
/// old validation section stripped) cites an id that names no usable tool
/// evidence; otherwise the status reads `需补证` where the missing-evidence
/// line lists something, and `通过` where it reads `无`. This holds where no
/// line of the stripped report reads as the heading and no evidence id,
/// tool name or error code holds a line break.
pub proof fn law_validation_verdict(report: Seq<char>, ev: Seq<DiagnosisEvidence>)
    requires
        no_heading_line(strip_section_spec(report)),
        evidence_fields_one_line(ev),
    ensures
        ({
            let ls = lines(constrain_spec(report, ev));
            let cited = cited_ids(strip_section_spec(report));
            let usable = usable_evidence_spec(ev);
            &&& exists|k: int| 0 <= k < ls.len() && trim(#[trigger] ls[k]) == validation_heading()
            &&& forall|k: int|
                0 <= k < ls.len() && trim(#[trigger] ls[k]) == validation_heading() ==> {
                    &&& k + 6 < ls.len()
                    &&& ls[k + 1] == "- 校验状态: 失败"@ || ls[k + 1] == "- 校验状态: 需补证"@
                        || ls[k + 1] == "- 校验状态: 通过"@
                    &&& (ls[k + 1] == "- 校验状态: 失败"@ <==> ls[k + 2] == "- 置信度: 低"@)
                    &&& (ls[k + 1] == "- 校验状态: 失败"@ <==> exists|i: int|
                        0 <= i < cited.len() && !names_item(usable, #[trigger] cited[i]))
                    &&& ls[k + 1] != "- 校验状态: 失败"@ ==> (ls[k + 1] == "- 校验状态: 需补证"@
                        <==> ls[k + 6] != "- 缺失证据: 无"@)
                }
        }),
{
    let r = strip_section_spec(report);
    lemma_stripped_shape(report);
    law_one_validation_heading(report, ev);
    let body = validation_body(r, ev);
    if r.len() > 0 {
        assert(!is_ws(r.last()));
    }
    lemma_guarded_lines(r, body);
    let heading = validation_heading();
    let empty = Seq::<char>::empty();
    assert(constrain_spec(report, ev) =~= r + RULE_AND_HEADING@ + body);
    let front = if r.len() == 0 {
        seq![empty]
    } else {
        lines(r)
    };
    let ls = front + seq![empty, rule(), empty, heading] + lines(body);
    assert(lines(constrain_spec(report, ev)) == ls);
    lemma_trim_literal(heading);
    let k0: int = front.len() + 3int;
    assert(ls[k0] == heading);
    let kk = choose|k: int|
        0 <= k < ls.len() && trim(#[trigger] ls[k]) == heading && forall|j: int|
            0 <= j < ls.len() && j != k ==> trim(#[trigger] ls[j]) != heading;
    assert(kk == k0);
    lemma_body_first_lines(r, ev);
    lemma_verdict_words(r, ev);
    lemma_fails_iff_unusable_citation(r, ev);
    let lb = lines(body);
    assert(ls[k0 + 1] == lb[0]);
    assert(ls[k0 + 2] == lb[1]);
    assert(ls[k0 + 6] == lb[5]);
}

/// A cited id that satisfies `f` is kept.
proof fn lemma_keep_ids_keeps(ids: Seq<Seq<char>>, f: spec_fn(Seq<char>) -> bool, i: int)
    requires
        0 <= i < ids.len(),
        f(ids[i]),
    ensures
        keep_ids(ids, f).contains(ids[i]),
    decreases ids.len(),
{
    if i < ids.len() - 1 {
        lemma_keep_ids_keeps(ids.drop_last(), f, i);
        assert(ids.drop_last()[i] == ids[i]);
        let p = keep_ids(ids.drop_last(), f);
        let k = choose|k: int| 0 <= k < p.len() && p[k] == ids[i];
        assert(keep_ids(ids, f)[k] == ids[i]);
    } else {
        let r = keep_ids(ids, f);
        assert(r[r.len() - 1] == ids[i]);
    }
}

/// Where the validation body finds evidence missing, the guarded report
/// does not pass.
proof fn lemma_missing_blocks_pass(report: Seq<char>, ev: Seq<DiagnosisEvidence>)
    requires
        no_heading_line(strip_section_spec(report)),
        evidence_fields_one_line(ev),
        body_missing(strip_section_spec(report), ev).len() > 0,
    ensures
        ({
            let ls = lines(constrain_spec(report, ev));
            forall|k: int|
                0 <= k < ls.len() && trim(#[trigger] ls[k]) == validation_heading() ==> {
                    &&& k + 6 < ls.len()
                    &&& ls[k + 1] != "- 校验状态: 通过"@
                    &&& ls[k + 6] != "- 缺失证据: 无"@
                }
        }),
{
    let r = strip_section_spec(report);
    lemma_stripped_shape(report);
    law_one_validation_heading(report, ev);
    let body = validation_body(r, ev);
    if r.len() > 0 {
        assert(!is_ws(r.last()));
    }
    lemma_guarded_lines(r, body);
    let heading = validation_heading();
    let empty = Seq::<char>::empty();
    assert(constrain_spec(report, ev) =~= r + RULE_AND_HEADING@ + body);
    let front = if r.len() == 0 {
        seq![empty]
    } else {
        lines(r)
    };
    let ls = front + seq![empty, rule(), empty, heading] + lines(body);
    assert(lines(constrain_spec(report, ev)) == ls);
    lemma_trim_literal(heading);
    let k0: int = front.len() + 3int;
    assert(ls[k0] == heading);
    let kk = choose|k: int|
        0 <= k < ls.len() && trim(#[trigger] ls[k]) == heading && forall|j: int|
            0 <= j < ls.len() && j != k ==> trim(#[trigger] ls[j]) != heading;
    assert(kk == k0);
    lemma_body_first_lines(r, ev);
    lemma_verdict_words(r, ev);
    let lb = lines(body);
    assert(ls[k0 + 1] == lb[0]);
    assert(ls[k0 + 6] == lb[5]);
}

/// The ids `keep_ids` keeps are ids it was given.
proof fn lemma_keep_ids_subset(ids: Seq<Seq<char>>, f: spec_fn(Seq<char>) -> bool)
    ensures
        forall|k: int|
            0 <= k < keep_ids(ids, f).len() ==> ids.contains(#[trigger] keep_ids(ids, f)[k]),
    decreases ids.len(),
{
    if ids.len() > 0 {
        let d = ids.drop_last();
        lemma_keep_ids_subset(d, f);
        let p = keep_ids(d, f);
        assert forall|k: int| 0 <= k < keep_ids(ids, f).len() implies ids.contains(
            #[trigger] keep_ids(ids, f)[k],
        ) by {
            if k < p.len() {
                assert(keep_ids(ids, f)[k] == p[k]);
                let i = choose|i: int| 0 <= i < d.len() && d[i] == p[k];
                assert(ids[i] == d[i]);
            } else {
                assert(keep_ids(ids, f)[k] == ids[ids.len() - 1]);
            }
        }
    }
}

/// No cited id names usable evidence of a call of `tool`.
pub open spec fn cites_no_call_of(cited: Seq<Seq<char>>, usable: Seq<DiagnosisEvidence>, tool: Seq<char>) -> bool {
    forall|i: int, j: int|
        0 <= i < cited.len() && 0 <= j < usable.len() && usable[j].tool_name@ == tool ==> #[trigger] cited[i]
            != #[trigger] usable[j].id@
}

/// No cited id names usable evidence whose text shows a JVM signal.
pub open spec fn cites_no_jvm_signal(cited: Seq<Seq<char>>, usable: Seq<DiagnosisEvidence>) -> bool {
    forall|i: int, j: int|
        0 <= i < cited.len() && 0 <= j < usable.len() && jvm_signal(evidence_text(usable[j]))
            ==> #[trigger] cited[i] != #[trigger] usable[j].id@
}

/// Law: where the evidence holds a tool call and the report (its old
/// validation section stripped) cites no id of usable tool evidence, the
/// guarded report does not pass: under the validation heading the status
/// line is not `通过` and the missing-evidence line is not `无`. This holds
/// where no line of the stripped report reads as the heading and no
/// evidence id, tool name or error code holds a line break.
pub proof fn law_uncited_evidence_never_passes(report: Seq<char>, ev: Seq<DiagnosisEvidence>)
    requires
        no_heading_line(strip_section_spec(report)),
        evidence_fields_one_line(ev),
        exists|i: int| 0 <= i < ev.len() && is_tool_evidence(#[trigger] ev[i]),
        forall|i: int|
            0 <= i < cited_ids(strip_section_spec(report)).len() ==> !names_item(
                usable_evidence_spec(ev),
                #[trigger] cited_ids(strip_section_spec(report))[i],
            ),
    ensures
        ({
            let ls = lines(constrain_spec(report, ev));
            forall|k: int|
                0 <= k < ls.len() && trim(#[trigger] ls[k]) == validation_heading() ==> {
                    &&& k + 6 < ls.len()
                    &&& ls[k + 1] != "- 校验状态: 通过"@
                    &&& ls[k + 6] != "- 缺失证据: 无"@
                }
        }),
{
    let r = strip_section_spec(report);
    let tool = tool_evidence_spec(ev);
    let usable = usable_evidence_spec(ev);
    let cited = cited_ids(r);
    let c = check_citations(r, ev);
    lemma_keep_members(ev, |e: DiagnosisEvidence| is_tool_evidence(e));
    let i0 = choose|i: int| 0 <= i < ev.len() && is_tool_evidence(#[trigger] ev[i]);
    assert(tool.contains(ev[i0]));
    assert(tool.len() > 0);
    let f_unknown = |x: Seq<char>| !names_item(tool, x);
    let f_invalid = |x: Seq<char>| names_item(tool, x) && !names_item(usable, x);
    let f_known = |x: Seq<char>| !c.unknown.contains(x) && !c.invalid.contains(x);
    assert(c.unknown == keep_ids(cited, f_unknown));
    assert(c.invalid == keep_ids(cited, f_invalid));
    assert(c.known == keep_ids(cited, f_known));
    assert forall|i: int| 0 <= i < cited.len() implies !f_known(#[trigger] cited[i]) by {
        assert(!names_item(usable, cited[i]));
        if names_item(tool, cited[i]) {
            lemma_keep_ids_keeps(cited, f_invalid, i);
        } else {
            lemma_keep_ids_keeps(cited, f_unknown, i);
        }
    }
    lemma_keep_ids_nonempty(cited, f_known);
    assert(c.known.len() == 0);
    assert(body_missing(r, ev).len() > 0);
    lemma_missing_blocks_pass(report, ev);
}

/// Law: a report (its old validation section stripped) does not pass
/// where it claims what no evidence it cites backs: a resource claim with
/// no cited `queryMetricTrend` call; a log claim that is no JVM claim, with
/// no cited `queryLogs` call; a JVM claim with neither a cited `queryLogs`
/// call nor cited evidence showing a JVM signal (usable evidence each).
/// Under the validation heading the status line is then not `通过` and the
/// missing-evidence line is not `无`. This holds where no line of the
/// stripped report reads as the heading and no evidence id, tool name or
/// error code holds a line break.
pub proof fn law_unbacked_claim_never_passes(report: Seq<char>, ev: Seq<DiagnosisEvidence>)
    requires
        no_heading_line(strip_section_spec(report)),
        evidence_fields_one_line(ev),
        ({
            let r = strip_section_spec(report);
            let cited = cited_ids(r);
            let usable = usable_evidence_spec(ev);
            ||| resource_claim(r) && cites_no_call_of(cited, usable, "queryMetricTrend"@)
            ||| log_claim(r) && !jvm_claim(r) && cites_no_call_of(cited, usable, "queryLogs"@)
            ||| jvm_claim(r) && cites_no_call_of(cited, usable, "queryLogs"@) && cites_no_jvm_signal(
                cited,
                usable,
            )
        }),
    ensures
        ({
            let ls = lines(constrain_spec(report, ev));
            forall|k: int|
                0 <= k < ls.len() && trim(#[trigger] ls[k]) == validation_heading() ==> {
                    &&& k + 6 < ls.len()
                    &&& ls[k + 1] != "- 校验状态: 通过"@
                    &&& ls[k + 6] != "- 缺失证据: 无"@
                }
        }),
{
    let r = strip_section_spec(report);
    let cited = cited_ids(r);
    let usable = usable_evidence_spec(ev);
    let c = check_citations(r, ev);
    let known = c.known;
    lemma_keep_ids_subset(cited, |x: Seq<char>| !c.unknown.contains(x) && !c.invalid.contains(x));
    assert forall|tool_name: Seq<char>|
        cites_no_call_of(cited, usable, tool_name) implies !cited_successful_tool(
        known,
        usable,
        tool_name,
    ) by {
        if cited_successful_tool(known, usable, tool_name) {
            let (i, j) = choose|i: int, j: int|
                0 <= i < known.len() && 0 <= j < usable.len() && #[trigger] known[i]
                    == #[trigger] usable[j].id@ && usable[j].success && usable[j].tool_name@
                    == tool_name;
            assert(cited.contains(known[i]));
            let k = choose|k: int| 0 <= k < cited.len() && cited[k] == known[i];
            assert(cited[k] != usable[j].id@);
        }
    }
    if cites_no_jvm_signal(cited, usable) && cited_jvm_text(known, usable) {
        let (i, j) = choose|i: int, j: int|
            0 <= i < known.len() && 0 <= j < usable.len() && #[trigger] known[i]
                == #[trigger] usable[j].id@ && jvm_signal(evidence_text(usable[j]));
        assert(cited.contains(known[i]));
        let k = choose|k: int| 0 <= k < cited.len() && cited[k] == known[i];
        assert(cited[k] != usable[j].id@);
    }
    assert(body_missing(r, ev).len() > 0);
    lemma_missing_blocks_pass(report, ev);
}

// ---------------------------------------------------------------------------
// The evidence table
// ---------------------------------------------------------------------------

/// A cell's text holds no line break.
proof fn lemma_replace_breaks(s: Seq<char>)
    ensures
        no_line_break(replace(s, seq!['\n'], seq![' '])),
    decreases s.len(),
{
    if s.len() > 0 {
        lemma_replace_breaks(s.skip(1));
        let nl = seq!['\n'];
        if occurs_at(s, nl, 0) {
            lemma_concat_one_line(seq![' '], replace(s.skip(1), nl, seq![' ']));
        } else {
            assert(s.subrange(0, 1) =~= seq![s[0]]);
            lemma_concat_one_line(seq![s[0]], replace(s.skip(1), nl, seq![' ']));
        }
    }
}

proof fn lemma_cell_one_line(v: Seq<char>)
    ensures
        no_line_break(cell_spec(v)),
{
    let w = if crate::text::is_blank(v) {
        Seq::<char>::empty()
    } else {
        v
    };
    lemma_replace_breaks(replace(w, seq!['|'], seq!['\\', '|']));
}

/// A table row: one line starting and ending with `|`, then a break.
pub open spec fn is_row(r: Seq<char>) -> bool {
    &&& r.len() >= 2
    &&& r.last() == '\n'
    &&& r[r.len() - 2] == '|'
    &&& r[0] == '|'
    &&& no_line_break(r.drop_last())
}

proof fn lemma_rows_are_rows(e: DiagnosisEvidence)
    ensures
        is_row(usable_row(e)),
        is_row(failed_row(e)),
{
    reveal_strlit("| ");
    reveal_strlit(" | ");
    reveal_strlit(" | success | ");
    reveal_strlit(" | failed | ");
    reveal_strlit(" |\n");
    let c1 = cell_spec(e.id@);
    let c2 = cell_spec(e.evidence_type@);
    let c3 = cell_spec(e.tool_name@);
    let c4 = cell_spec(e.time_range@);
    let c5 = cell_spec(compact_spec(e.summary@, SUMMARY_LIMIT as nat));
    let c6 = cell_spec(e.error_code@);
    lemma_cell_one_line(e.id@);
    lemma_cell_one_line(e.evidence_type@);
    lemma_cell_one_line(e.tool_name@);
    lemma_cell_one_line(e.time_range@);
    lemma_cell_one_line(compact_spec(e.summary@, SUMMARY_LIMIT as nat));
    lemma_cell_one_line(e.error_code@);
    let bar = "| "@;
    let sep = " | "@;
    let end = " |"@;
    reveal_strlit(" |");
    assert(no_line_break(bar) && no_line_break(sep) && no_line_break(end));
    assert(no_line_break(" | success | "@) && no_line_break(" | failed | "@));
    let u = bar + c1 + sep + c2 + sep + c3 + sep + c4 + " | success | "@ + c5 + end;
    lemma_concat_one_line(bar, c1);
    lemma_concat_one_line(bar + c1, sep);
    lemma_concat_one_line(bar + c1 + sep, c2);
    lemma_concat_one_line(bar + c1 + sep + c2, sep);
    lemma_concat_one_line(bar + c1 + sep + c2 + sep, c3);
    lemma_concat_one_line(bar + c1 + sep + c2 + sep + c3, sep);
    lemma_concat_one_line(bar + c1 + sep + c2 + sep + c3 + sep, c4);
    lemma_concat_one_line(bar + c1 + sep + c2 + sep + c3 + sep + c4, " | success | "@);
    lemma_concat_one_line(bar + c1 + sep + c2 + sep + c3 + sep + c4 + " | success | "@, c5);
    lemma_concat_one_line(bar + c1 + sep + c2 + sep + c3 + sep + c4 + " | success | "@ + c5, end);
    assert(usable_row(e) =~= u + seq!['\n']);
    assert(usable_row(e).drop_last() =~= u);
    assert(u[0] == '|');
    assert(u.last() == '|');
    let f = bar + c1 + sep + c3 + " | failed | "@ + c6 + sep + c5 + end;
    lemma_concat_one_line(bar, c1);
    lemma_concat_one_line(bar + c1, sep);
    lemma_concat_one_line(bar + c1 + sep, c3);
    lemma_concat_one_line(bar + c1 + sep + c3, " | failed | "@);
    lemma_concat_one_line(bar + c1 + sep + c3 + " | failed | "@, c6);
    lemma_concat_one_line(bar + c1 + sep + c3 + " | failed | "@ + c6, sep);
    lemma_concat_one_line(bar + c1 + sep + c3 + " | failed | "@ + c6 + sep, c5);
    lemma_concat_one_line(bar + c1 + sep + c3 + " | failed | "@ + c6 + sep + c5, end);
    assert(failed_row(e) =~= f + seq!['\n']);
    assert(failed_row(e).drop_last() =~= f);
    assert(f[0] == '|');
    assert(f.last() == '|');
}

/// The lines of rows followed by `b`: one line per row, then those of `b`.
proof fn lemma_rows_lines(
    xs: Seq<DiagnosisEvidence>,
    row: spec_fn(DiagnosisEvidence) -> Seq<char>,
    b: Seq<char>,
)
    requires
        forall|e: DiagnosisEvidence| is_row(#[trigger] row(e)),
    ensures
        lines(rows(xs, row) + b) == xs.map_values(|e: DiagnosisEvidence| row(e).drop_last()) + lines(b),
    decreases xs.len(),
{
    if xs.len() == 0 {
        assert(rows(xs, row) + b =~= b);
        assert(xs.map_values(|e: DiagnosisEvidence| row(e).drop_last()) + lines(b) =~= lines(b));
    } else {
        let last = row(xs.last());
        assert(is_row(last));
        let line = last.drop_last();
        assert(last =~= line + seq!['\n']);
        lemma_lines_cons(line, b);
        let rest = line + seq!['\n'] + b;
        lemma_rows_lines(xs.drop_last(), row, rest);
        assert(rows(xs, row) + b =~= rows(xs.drop_last(), row) + rest);
        assert(xs.map_values(|e: DiagnosisEvidence| row(e).drop_last()) =~= xs.drop_last().map_values(
            |e: DiagnosisEvidence| row(e).drop_last(),
        ).push(line));
    }
}

/// The heading line of the table of usable evidence.
pub open spec fn usable_heading() -> Seq<char> {
    USABLE_TABLE_HEAD@.take(15)
}

/// The heading line of the table of failed evidence.
pub open spec fn failed_heading() -> Seq<char> {
    FAILED_TABLE_HEAD@.take(11)
}

proof fn lemma_usable_head_lines(b: Seq<char>)
    ensures
        lines(USABLE_TABLE_HEAD@ + b) == seq![
            usable_heading(),
            USABLE_TABLE_HEAD@.subrange(16, 58),
            USABLE_TABLE_HEAD@.subrange(59, 84),
        ] + lines(b),
        usable_heading()[0] == '#',
        USABLE_TABLE_HEAD@.subrange(16, 58)[0] == '|',
        USABLE_TABLE_HEAD@.subrange(59, 84)[0] == '|',
{
    reveal_strlit("## 可用工具证据表（仅成功）\n| Evidence ID | 类型 | 工具 | 时间范围 | 状态 | 摘要 |\n|---|---|---|---|---|---|\n");
    let h = USABLE_TABLE_HEAD@;
    let a = h.take(15);
    let t = h.subrange(16, 58);
    let d = h.subrange(59, 84);
    assert(h.len() == 85);
    assert(h[15] == '\n' && h[58] == '\n' && h[84] == '\n');
    assert(no_line_break(a) && no_line_break(t) && no_line_break(d));
    assert(h =~= a + seq!['\n'] + t + seq!['\n'] + d + seq!['\n']);
    lemma_lines_cons(d, b);
    lemma_lines_cons(t, d + seq!['\n'] + b);
    lemma_lines_cons(a, t + seq!['\n'] + (d + seq!['\n'] + b));
    assert(h + b =~= a + seq!['\n'] + (t + seq!['\n'] + (d + seq!['\n'] + b)));
}

proof fn lemma_failed_head_lines(b: Seq<char>)
    ensures
        lines(FAILED_TABLE_HEAD@ + b) == seq![
            failed_heading(),
            FAILED_TABLE_HEAD@.subrange(12, 48),
            FAILED_TABLE_HEAD@.subrange(49, 70),
        ] + lines(b),
        failed_heading()[0] == '#',
        failed_heading().len() == 11,
        usable_heading().len() == 15,
        FAILED_TABLE_HEAD@.subrange(12, 48)[0] == '|',
        FAILED_TABLE_HEAD@.subrange(49, 70)[0] == '|',
{
    reveal_strlit("## 失败工具证据说明\n| Evidence ID | 工具 | 状态 | 错误码 | 摘要 |\n|---|---|---|---|---|\n");
    reveal_strlit("## 可用工具证据表（仅成功）\n| Evidence ID | 类型 | 工具 | 时间范围 | 状态 | 摘要 |\n|---|---|---|---|---|---|\n");
    let h = FAILED_TABLE_HEAD@;
    let a = h.take(11);
    let t = h.subrange(12, 48);
    let d = h.subrange(49, 70);
    assert(h.len() == 71);
    assert(h[11] == '\n' && h[48] == '\n' && h[70] == '\n');
    assert(no_line_break(a) && no_line_break(t) && no_line_break(d));
    assert(h =~= a + seq!['\n'] + t + seq!['\n'] + d + seq!['\n']);
    lemma_lines_cons(d, b);
    lemma_lines_cons(t, d + seq!['\n'] + b);
    lemma_lines_cons(a, t + seq!['\n'] + (d + seq!['\n'] + b));
    assert(h + b =~= a + seq!['\n'] + (t + seq!['\n'] + (d + seq!['\n'] + b)));
}

/// Tool evidence is usable or failed, so there is some exactly when there
/// is usable or failed evidence.
proof fn lemma_tool_is_usable_or_failed(ev: Seq<DiagnosisEvidence>)
    ensures
        tool_evidence_spec(ev).len() > 0 <==> (usable_evidence_spec(ev).len() > 0
            || failed_evidence_spec(ev).len() > 0),
{
    lemma_keep_members(ev, |e: DiagnosisEvidence| is_tool_evidence(e));
    lemma_keep_members(ev, |e: DiagnosisEvidence| is_usable(e));
    lemma_keep_members(ev, |e: DiagnosisEvidence| is_failed(e));
    let tool = tool_evidence_spec(ev);
    if tool.len() > 0 {
        let j = choose|j: int| 0 <= j < ev.len() && ev[j] == tool[0];
        assert(is_tool_evidence(ev[j]));
        if is_usable(ev[j]) {
            assert(usable_evidence_spec(ev).contains(ev[j]));
        } else {
            assert(failed_evidence_spec(ev).contains(ev[j]));
        }
    }
    if usable_evidence_spec(ev).len() > 0 {
        let u = usable_evidence_spec(ev);
        let j = choose|j: int| 0 <= j < ev.len() && ev[j] == u[0];
        assert(is_usable(u[0]));
        assert(tool.contains(ev[j]));
    }
    if failed_evidence_spec(ev).len() > 0 {
        let f = failed_evidence_spec(ev);
        let j = choose|j: int| 0 <= j < ev.len() && ev[j] == f[0];
        assert(is_failed(f[0]));
        assert(tool.contains(ev[j]));
    }
}

/// The last row of rows that are not none ends the text with `|` and a
/// break.
proof fn lemma_rows_end(xs: Seq<DiagnosisEvidence>, row: spec_fn(DiagnosisEvidence) -> Seq<char>, a: Seq<char>)
    requires
        xs.len() > 0,
        forall|e: DiagnosisEvidence| is_row(#[trigger] row(e)),
    ensures
        (a + rows(xs, row)).len() >= 2,
        (a + rows(xs, row)).last() == '\n',
        (a + rows(xs, row))[(a + rows(xs, row)).len() - 2] == '|',
{
    let r = row(xs.last());
    assert(is_row(r));
    assert(a + rows(xs, row) =~= (a + rows(xs.drop_last(), row)) + r);
}

/// The lines of the evidence tables: the heading, title and rule lines of
/// each table present, its rows, and a blank line between the tables.
pub open spec fn table_lines(ev: Seq<DiagnosisEvidence>) -> Seq<Seq<char>> {
    let u = usable_evidence_spec(ev);
    let f = failed_evidence_spec(ev);
    let ulines = u.map_values(|e: DiagnosisEvidence| usable_row(e).drop_last());
    let flines = f.map_values(|e: DiagnosisEvidence| failed_row(e).drop_last());
    let head_u = seq![
        usable_heading(),
        USABLE_TABLE_HEAD@.subrange(16, 58),
        USABLE_TABLE_HEAD@.subrange(59, 84),
    ];
    let head_f = seq![
        failed_heading(),
        FAILED_TABLE_HEAD@.subrange(12, 48),
        FAILED_TABLE_HEAD@.subrange(49, 70),
    ];
    if u.len() > 0 && f.len() > 0 {
        head_u + ulines + seq![Seq::empty()] + head_f + flines
    } else if u.len() > 0 {
        head_u + ulines
    } else {
        head_f + flines
    }
}

proof fn lemma_all_rows()
    ensures
        forall|e: DiagnosisEvidence| is_row(#[trigger] usable_row(e)),
        forall|e: DiagnosisEvidence| is_row(#[trigger] failed_row(e)),
{
    assert forall|e: DiagnosisEvidence| is_row(#[trigger] usable_row(e)) by {
        lemma_rows_are_rows(e);
    }
    assert forall|e: DiagnosisEvidence| is_row(#[trigger] failed_row(e)) by {
        lemma_rows_are_rows(e);
    }
}

/// The failed table alone: its lines, and how it ends.
proof fn lemma_failed_part(f: Seq<DiagnosisEvidence>)
    requires
        f.len() > 0,
    ensures
        lines(FAILED_TABLE_HEAD@ + rows(f, |e: DiagnosisEvidence| failed_row(e))) == seq![
            failed_heading(),
            FAILED_TABLE_HEAD@.subrange(12, 48),
            FAILED_TABLE_HEAD@.subrange(49, 70),
        ] + f.map_values(|e: DiagnosisEvidence| failed_row(e).drop_last()),
{
    let fr = |e: DiagnosisEvidence| failed_row(e);
    lemma_all_rows();
    assert(forall|e: DiagnosisEvidence| is_row(#[trigger] fr(e)));
    lemma_rows_lines(f, fr, Seq::empty());
    assert(rows(f, fr) + Seq::<char>::empty() =~= rows(f, fr));
    assert(lines(Seq::<char>::empty()) =~= Seq::<Seq<char>>::empty());
    lemma_failed_head_lines(rows(f, fr));
}

/// The tables' text: its lines, its first character, and its end.
proof fn lemma_tables_shape(ev: Seq<DiagnosisEvidence>)
    requires
        usable_evidence_spec(ev).len() > 0 || failed_evidence_spec(ev).len() > 0,
    ensures
        lines(evidence_tables(ev)) == table_lines(ev),
        evidence_tables(ev).len() >= 2,
        evidence_tables(ev)[0] == '#',
        evidence_tables(ev).last() == '\n',
        evidence_tables(ev)[evidence_tables(ev).len() - 2] == '|',
{
    reveal_strlit("## 失败工具证据说明\n| Evidence ID | 工具 | 状态 | 错误码 | 摘要 |\n|---|---|---|---|---|\n");
    reveal_strlit("## 可用工具证据表（仅成功）\n| Evidence ID | 类型 | 工具 | 时间范围 | 状态 | 摘要 |\n|---|---|---|---|---|---|\n");
    let u = usable_evidence_spec(ev);
    let f = failed_evidence_spec(ev);
    let ur = |e: DiagnosisEvidence| usable_row(e);
    let fr = |e: DiagnosisEvidence| failed_row(e);
    lemma_all_rows();
    assert(forall|e: DiagnosisEvidence| is_row(#[trigger] ur(e)));
    assert(forall|e: DiagnosisEvidence| is_row(#[trigger] fr(e)));
    let t = evidence_tables(ev);
    let empty = Seq::<char>::empty();
    let fpart = FAILED_TABLE_HEAD@ + rows(f, fr);
    let upart = USABLE_TABLE_HEAD@ + rows(u, ur);
    if f.len() > 0 {
        lemma_failed_part(f);
    }
    if u.len() > 0 {
        if f.len() > 0 {
            lemma_lines_cons(empty, fpart);
            assert(empty + seq!['\n'] + fpart =~= seq!['\n'] + fpart);
            lemma_rows_lines(u, ur, seq!['\n'] + fpart);
            lemma_usable_head_lines(rows(u, ur) + (seq!['\n'] + fpart));
            assert(t =~= USABLE_TABLE_HEAD@ + (rows(u, ur) + (seq!['\n'] + fpart)));
            assert(lines(t) =~= table_lines(ev));
            lemma_rows_end(f, fr, upart + seq!['\n'] + FAILED_TABLE_HEAD@);
            assert(t =~= upart + seq!['\n'] + FAILED_TABLE_HEAD@ + rows(f, fr));
        } else {
            lemma_rows_lines(u, ur, Seq::empty());
            assert(rows(u, ur) + Seq::<char>::empty() =~= rows(u, ur));
            assert(lines(Seq::<char>::empty()) =~= Seq::<Seq<char>>::empty());
            lemma_usable_head_lines(rows(u, ur));
            assert(t == upart);
            assert(lines(t) =~= table_lines(ev));
            lemma_rows_end(u, ur, USABLE_TABLE_HEAD@);
        }
        assert(t[0] == USABLE_TABLE_HEAD@[0]);
    } else {
        assert(t =~= fpart);
        lemma_rows_end(f, fr, FAILED_TABLE_HEAD@);
        assert(t[0] == FAILED_TABLE_HEAD@[0]);
    }
}

/// The table is the tables' text without its final break, with the same
/// lines.
proof fn lemma_table_trimmed(ev: Seq<DiagnosisEvidence>)
    requires
        usable_evidence_spec(ev).len() > 0 || failed_evidence_spec(ev).len() > 0,
    ensures
        lines(evidence_table_spec(ev)) == table_lines(ev),
        evidence_table_spec(ev).len() > 0,
{
    lemma_tables_shape(ev);
    let t = evidence_tables(ev);
    let x = t.drop_last();
    assert(t =~= x + seq!['\n']);
    assert(x.last() == '|');
    assert(!is_ws(t[0]));
    assert(trim_start(t) == t);
    assert(trim_end(t) == trim_end(x));
    assert(trim_end(x) == x);
    assert(evidence_table_spec(ev) == x);
    lemma_lines_concat(x, Seq::empty());
    assert(x + seq!['\n'] + Seq::<char>::empty() =~= t);
    assert(lines(Seq::<char>::empty()) =~= Seq::<Seq<char>>::empty());
    assert(lines(x) =~= lines(t));
}

/// Law: the evidence table is empty exactly when there is no tool
/// evidence; it has the heading line of successful evidence exactly when
/// some tool evidence succeeded (and was not cut off), and that of failed
/// evidence exactly when some failed or was cut off.
pub proof fn law_evidence_table(ev: Seq<DiagnosisEvidence>)
    ensures
        evidence_table_spec(ev).len() == 0 <==> tool_evidence_spec(ev).len() == 0,
        lines(evidence_table_spec(ev)).contains(usable_heading()) <==> usable_evidence_spec(ev).len() > 0,
        lines(evidence_table_spec(ev)).contains(failed_heading()) <==> failed_evidence_spec(ev).len() > 0,
{
    lemma_tool_is_usable_or_failed(ev);
    lemma_failed_head_lines(Seq::empty());
    lemma_usable_head_lines(Seq::empty());
    let u = usable_evidence_spec(ev);
    let f = failed_evidence_spec(ev);
    if u.len() == 0 && f.len() == 0 {
        assert(lines(Seq::<char>::empty()) =~= Seq::<Seq<char>>::empty());
        return;
    }
    lemma_table_trimmed(ev);
    lemma_all_rows();
    let ls = table_lines(ev);
    let ulines = u.map_values(|e: DiagnosisEvidence| usable_row(e).drop_last());
    let flines = f.map_values(|e: DiagnosisEvidence| failed_row(e).drop_last());
    let hu = usable_heading();
    let hf = failed_heading();
    assert forall|k: int| 0 <= k < ulines.len() implies #[trigger] ulines[k] != hu && ulines[k] != hf by {
        assert(is_row(usable_row(u[k])));
        assert(ulines[k][0] == '|');
    }
    assert forall|k: int| 0 <= k < flines.len() implies #[trigger] flines[k] != hu && flines[k] != hf by {
        assert(is_row(failed_row(f[k])));
        assert(flines[k][0] == '|');
    }
    assert(hu != hf);
    let tu = USABLE_TABLE_HEAD@.subrange(16, 58);
    let du = USABLE_TABLE_HEAD@.subrange(59, 84);
    let tf = FAILED_TABLE_HEAD@.subrange(12, 48);
    let df = FAILED_TABLE_HEAD@.subrange(49, 70);
    assert(hu != tf && hu != df && hf != tu && hf != du && hf != Seq::<char>::empty());
    if u.len() > 0 {
        assert(ls[0] == hu);
    } else {
        assert forall|k: int| 0 <= k < ls.len() implies #[trigger] ls[k] != hu by {
            if k >= 3 {
                assert(ls[k] == flines[k - 3]);
            }
        }
    }
    if f.len() > 0 {
        if u.len() > 0 {
            assert(ls[ulines.len() + 4int] == hf);
        } else {
            assert(ls[0] == hf);
        }
    } else {
        assert forall|k: int| 0 <= k < ls.len() implies #[trigger] ls[k] != hf by {
            if k >= 3 {
                assert(ls[k] == ulines[k - 3]);
            }
        }
    }
}

} // verus!
