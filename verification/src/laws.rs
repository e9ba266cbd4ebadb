//! What holds of every classification.

use vstd::prelude::*;

use crate::binding::{BindingView, GroupView};
use crate::diagnostic::DiagnosticView;
use crate::resolver::{group_of, groups_of, DeclarationView, RedeclarationView};
use crate::rule::{candidate_findings, findings, group_findings, report, reportable, verdict};

verus! {

/// Classification is a function of the resolved model, the option and the
/// built-in set: two runs over the same three yield the same findings in
/// the same order.
pub proof fn classification_is_repeatable(
    check_builtins: bool,
    builtins: Set<Seq<char>>,
    groups: Seq<GroupView>,
    first: Seq<DiagnosticView>,
    second: Seq<DiagnosticView>,
)
    requires
        first == findings(check_builtins, builtins, groups),
        second == findings(check_builtins, builtins, groups),
    ensures
        first == second,
{
}

/// Without groups there are no findings.
pub proof fn no_groups_no_findings(check_builtins: bool, builtins: Set<Seq<char>>)
    ensures
        findings(check_builtins, builtins, Seq::empty()) == Seq::<DiagnosticView>::empty(),
{
}

/// The findings for candidates listed one after the other are the findings
/// for the first list followed by those for the second.
pub proof fn candidate_findings_follow_candidate_order(
    check_builtins: bool,
    builtins: Set<Seq<char>>,
    name: Seq<char>,
    anchor: BindingView,
    front: Seq<BindingView>,
    back: Seq<BindingView>,
)
    ensures
        candidate_findings(check_builtins, builtins, name, anchor, front + back)
            == candidate_findings(check_builtins, builtins, name, anchor, front)
            + candidate_findings(check_builtins, builtins, name, anchor, back),
    decreases back.len(),
{
    if back.len() == 0 {
        assert(front + back =~= front);
        assert(candidate_findings(check_builtins, builtins, name, anchor, front)
            + candidate_findings(check_builtins, builtins, name, anchor, back)
            =~= candidate_findings(check_builtins, builtins, name, anchor, front));
    } else {
        candidate_findings_follow_candidate_order(
            check_builtins,
            builtins,
            name,
            anchor,
            front,
            back.drop_last(),
        );
        assert((front + back).drop_last() =~= front + back.drop_last());
        assert((front + back).last() == back.last());
        let earlier = candidate_findings(check_builtins, builtins, name, anchor, back.drop_last());
        let start = candidate_findings(check_builtins, builtins, name, anchor, front);
        match verdict(check_builtins, builtins, name, anchor, back.last()) {
            Some(finding) => {
                assert((start + earlier).push(finding) =~= start + earlier.push(finding));
            },
            None => {},
        }
    }
}

/// The findings follow the order of the groups: those for groups listed one
/// after the other are the findings for the first list followed by those
/// for the second.
pub proof fn findings_follow_group_order(
    check_builtins: bool,
    builtins: Set<Seq<char>>,
    front: Seq<GroupView>,
    back: Seq<GroupView>,
)
    ensures
        findings(check_builtins, builtins, front + back) == findings(
            check_builtins,
            builtins,
            front,
        ) + findings(check_builtins, builtins, back),
    decreases back.len(),
{
    if back.len() == 0 {
        assert(front + back =~= front);
        assert(findings(check_builtins, builtins, front) + findings(check_builtins, builtins, back)
            =~= findings(check_builtins, builtins, front));
    } else {
        findings_follow_group_order(check_builtins, builtins, front, back.drop_last());
        assert((front + back).drop_last() =~= front + back.drop_last());
        assert((front + back).last() == back.last());
        let start = findings(check_builtins, builtins, front);
        let earlier = findings(check_builtins, builtins, back.drop_last());
        let last = group_findings(check_builtins, builtins, back.last());
        assert((start + earlier) + last =~= start + (earlier + last));
    }
}

/// Whether a candidate of a group is one the rule reports: of a reported
/// kind, under the group's name, and away from the anchor's span.
pub open spec fn reported(group: GroupView, candidate: BindingView) -> bool {
    &&& reportable(candidate.kind)
    &&& candidate.name == group.name
    &&& candidate.span != group.anchor.span
}

/// The finding for a reported candidate: the built-in one where the check is
/// on and the name is a built-in, else the ordinary one, which points at the
/// candidate first and at the anchor second.
pub open spec fn finding_for(
    check_builtins: bool,
    builtins: Set<Seq<char>>,
    group: GroupView,
    candidate: BindingView,
) -> DiagnosticView {
    if check_builtins && builtins.contains(group.name) {
        DiagnosticView::BuiltinShadow { name: group.name, span: candidate.span }
    } else {
        DiagnosticView::Redeclare {
            name: group.name,
            redeclared: candidate.span,
            defined: group.anchor.span,
        }
    }
}

/// Every reported candidate of every group has its finding among the
/// findings. So two declarations that the resolver groups, the later one a
/// `var` or a parameter, always give a finding that names the later one.
pub proof fn reported_candidate_has_its_finding(
    check_builtins: bool,
    builtins: Set<Seq<char>>,
    groups: Seq<GroupView>,
    g: int,
    c: int,
)
    requires
        0 <= g < groups.len(),
        0 <= c < groups[g].candidates.len(),
        reported(groups[g], groups[g].candidates[c]),
    ensures
        findings(check_builtins, builtins, groups).contains(
            finding_for(check_builtins, builtins, groups[g], groups[g].candidates[c]),
        ),
{
    let group = groups[g];
    let candidate = group.candidates[c];
    let expected = finding_for(check_builtins, builtins, group, candidate);
    // within the group
    let before = group.candidates.take(c);
    let after = group.candidates.skip(c + 1);
    assert(group.candidates =~= (before + seq![candidate]) + after);
    candidate_findings_follow_candidate_order(
        check_builtins,
        builtins,
        group.name,
        group.anchor,
        before + seq![candidate],
        after,
    );
    candidate_findings_follow_candidate_order(
        check_builtins,
        builtins,
        group.name,
        group.anchor,
        before,
        seq![candidate],
    );
    let own = candidate_findings(check_builtins, builtins, group.name, group.anchor, seq![candidate]);
    assert(own =~= seq![expected]) by {
        assert(seq![candidate].drop_last() =~= Seq::<BindingView>::empty());
        assert(seq![candidate].last() == candidate);
        assert(candidate_findings(
            check_builtins,
            builtins,
            group.name,
            group.anchor,
            Seq::<BindingView>::empty(),
        ) =~= Seq::<DiagnosticView>::empty());
    }
    let in_group = group_findings(check_builtins, builtins, group);
    let at = candidate_findings(check_builtins, builtins, group.name, group.anchor, before).len() as int;
    assert(in_group[at] == expected);
    // within the whole
    let earlier = groups.take(g);
    let later = groups.skip(g + 1);
    assert(groups =~= (earlier + seq![group]) + later);
    findings_follow_group_order(check_builtins, builtins, earlier + seq![group], later);
    findings_follow_group_order(check_builtins, builtins, earlier, seq![group]);
    assert(findings(check_builtins, builtins, seq![group]) =~= in_group) by {
        assert(seq![group].drop_last() =~= Seq::<GroupView>::empty());
        assert(seq![group].last() == group);
        assert(findings(check_builtins, builtins, Seq::<GroupView>::empty()) =~= Seq::<
            DiagnosticView,
        >::empty());
    }
    let all = findings(check_builtins, builtins, groups);
    let offset = findings(check_builtins, builtins, earlier).len() as int;
    assert(all[offset + at] == expected);
}

/// Every finding for a group is the finding for one of its reported
/// candidates: nothing is reported for a binding of another kind, under
/// another name, or at the anchor's own span.
pub proof fn group_finding_has_its_candidate(
    check_builtins: bool,
    builtins: Set<Seq<char>>,
    group: GroupView,
    k: int,
)
    requires
        0 <= k < group_findings(check_builtins, builtins, group).len(),
    ensures
        exists|c: int|
            0 <= c < group.candidates.len() && reported(group, #[trigger] group.candidates[c])
                && group_findings(check_builtins, builtins, group)[k] == finding_for(
                check_builtins,
                builtins,
                group,
                group.candidates[c],
            ),
{
    assert(group.candidates.take(group.candidates.len() as int) =~= group.candidates);
    lemma_finding_has_candidate(check_builtins, builtins, group, group.candidates.len() as int, k);
}

proof fn lemma_finding_has_candidate(
    check_builtins: bool,
    builtins: Set<Seq<char>>,
    group: GroupView,
    n: int,
    k: int,
)
    requires
        0 <= n <= group.candidates.len(),
        0 <= k < candidate_findings(
            check_builtins,
            builtins,
            group.name,
            group.anchor,
            group.candidates.take(n),
        ).len(),
    ensures
        exists|c: int|
            0 <= c < n && reported(group, #[trigger] group.candidates[c]) && candidate_findings(
                check_builtins,
                builtins,
                group.name,
                group.anchor,
                group.candidates.take(n),
            )[k] == finding_for(check_builtins, builtins, group, group.candidates[c]),
    decreases n,
{
    let prefix = group.candidates.take(n);
    if n > 0 {
        assert(prefix.drop_last() =~= group.candidates.take(n - 1));
        assert(prefix.last() == group.candidates[n - 1]);
        let earlier = candidate_findings(
            check_builtins,
            builtins,
            group.name,
            group.anchor,
            group.candidates.take(n - 1),
        );
        if k < earlier.len() {
            lemma_finding_has_candidate(check_builtins, builtins, group, n - 1, k);
        } else {
            assert(reported(group, group.candidates[n - 1]));
        }
    }
}

/// Every finding of a classification is the finding for a reported
/// candidate of one of the groups.
pub proof fn finding_has_its_candidate(
    check_builtins: bool,
    builtins: Set<Seq<char>>,
    groups: Seq<GroupView>,
    k: int,
)
    requires
        0 <= k < findings(check_builtins, builtins, groups).len(),
    ensures
        exists|g: int, c: int|
            0 <= g < groups.len() && 0 <= c < (#[trigger] groups[g]).candidates.len() && reported(
                groups[g],
                #[trigger] groups[g].candidates[c],
            ) && findings(check_builtins, builtins, groups)[k] == finding_for(
                check_builtins,
                builtins,
                groups[g],
                groups[g].candidates[c],
            ),
    decreases groups.len(),
{
    let earlier = findings(check_builtins, builtins, groups.drop_last());
    if k < earlier.len() {
        finding_has_its_candidate(check_builtins, builtins, groups.drop_last(), k);
        let (g, c) = choose|g: int, c: int|
            0 <= g < groups.drop_last().len() && 0 <= c < (#[trigger] groups.drop_last()[g]).candidates.len()
                && reported(groups.drop_last()[g], #[trigger] groups.drop_last()[g].candidates[c])
                && earlier[k] == finding_for(
                check_builtins,
                builtins,
                groups.drop_last()[g],
                groups.drop_last()[g].candidates[c],
            );
        assert(groups[g] == groups.drop_last()[g]);
        assert(reported(groups[g], groups[g].candidates[c]));
    } else {
        let last = groups.len() - 1;
        group_finding_has_its_candidate(check_builtins, builtins, groups.last(), k - earlier.len());
        let c = choose|c: int|
            0 <= c < groups.last().candidates.len() && reported(
                groups.last(),
                #[trigger] groups.last().candidates[c],
            ) && group_findings(check_builtins, builtins, groups.last())[k - earlier.len()]
                == finding_for(check_builtins, builtins, groups.last(), groups.last().candidates[c]);
        assert(groups[last] == groups.last());
        assert(reported(groups[last], groups[last].candidates[c]));
    }
}

/// With the built-in check on, a group under a built-in name gives built-in
/// findings only: the ordinary finding is never added to them.
pub proof fn builtin_finding_takes_precedence(
    builtins: Set<Seq<char>>,
    group: GroupView,
    k: int,
)
    requires
        builtins.contains(group.name),
        0 <= k < group_findings(true, builtins, group).len(),
    ensures
        group_findings(true, builtins, group)[k] is BuiltinShadow,
{
    group_finding_has_its_candidate(true, builtins, group, k);
}

/// With the built-in check off, every finding is the ordinary one, whatever
/// the built-in set holds.
pub proof fn no_builtin_finding_unless_enabled(
    builtins: Set<Seq<char>>,
    groups: Seq<GroupView>,
    k: int,
)
    requires
        0 <= k < findings(false, builtins, groups).len(),
    ensures
        findings(false, builtins, groups)[k] is Redeclare,
{
    finding_has_its_candidate(false, builtins, groups, k);
}

/// In a group as the resolver owes it, the tracked name is the name of every
/// candidate, so a candidate is passed over only for its kind or for sitting
/// at the anchor's span.
pub proof fn well_formed_group_is_judged_by_kind_and_span(
    check_builtins: bool,
    builtins: Set<Seq<char>>,
    group: GroupView,
    c: int,
)
    requires
        group.well_formed(),
        0 <= c < group.candidates.len(),
    ensures
        verdict(check_builtins, builtins, group.name, group.anchor, group.candidates[c]) is None
            <==> (!reportable(group.candidates[c].kind) || group.candidates[c].span
            == group.anchor.span),
{
}

/// A group gives at most one finding for each of its candidates.
pub proof fn at_most_one_finding_for_each_candidate(
    check_builtins: bool,
    builtins: Set<Seq<char>>,
    name: Seq<char>,
    anchor: BindingView,
    candidates: Seq<BindingView>,
)
    ensures
        candidate_findings(check_builtins, builtins, name, anchor, candidates).len()
            <= candidates.len(),
    decreases candidates.len(),
{
    if candidates.len() > 0 {
        at_most_one_finding_for_each_candidate(
            check_builtins,
            builtins,
            name,
            anchor,
            candidates.drop_last(),
        );
    }
}

/// In a group as the resolver owes it, the findings come in source order:
/// a later finding never points at an earlier occurrence.
pub proof fn well_formed_group_is_reported_in_source_order(
    check_builtins: bool,
    builtins: Set<Seq<char>>,
    group: GroupView,
    j: int,
    k: int,
)
    requires
        group.well_formed(),
        0 <= j <= k < group_findings(check_builtins, builtins, group).len(),
    ensures
        group_findings(check_builtins, builtins, group)[j].primary_span().start <= group_findings(
            check_builtins,
            builtins,
            group,
        )[k].primary_span().start,
{
    assert(group.candidates.take(group.candidates.len() as int) =~= group.candidates);
    lemma_prefix_in_source_order(
        check_builtins,
        builtins,
        group,
        group.candidates.len() as int,
        j,
        k,
    );
}

proof fn lemma_prefix_in_source_order(
    check_builtins: bool,
    builtins: Set<Seq<char>>,
    group: GroupView,
    n: int,
    j: int,
    k: int,
)
    requires
        group.well_formed(),
        0 <= n <= group.candidates.len(),
        0 <= j <= k < candidate_findings(
            check_builtins,
            builtins,
            group.name,
            group.anchor,
            group.candidates.take(n),
        ).len(),
    ensures
        candidate_findings(
            check_builtins,
            builtins,
            group.name,
            group.anchor,
            group.candidates.take(n),
        )[j].primary_span().start <= candidate_findings(
            check_builtins,
            builtins,
            group.name,
            group.anchor,
            group.candidates.take(n),
        )[k].primary_span().start,
    decreases n,
{
    let prefix = group.candidates.take(n);
    if n > 0 {
        assert(prefix.drop_last() =~= group.candidates.take(n - 1));
        assert(prefix.last() == group.candidates[n - 1]);
        let earlier = candidate_findings(
            check_builtins,
            builtins,
            group.name,
            group.anchor,
            group.candidates.take(n - 1),
        );
        if k < earlier.len() {
            lemma_prefix_in_source_order(check_builtins, builtins, group, n - 1, j, k);
        } else if j < earlier.len() {
            lemma_finding_has_candidate(check_builtins, builtins, group, n - 1, j);
            let c = choose|c: int|
                0 <= c < n - 1 && reported(group, #[trigger] group.candidates[c]) && earlier[j]
                    == finding_for(check_builtins, builtins, group, group.candidates[c]);
            assert(group.candidates[c].span.start <= group.candidates[n - 1].span.start);
        }
    }
}

/// The finding for one record of the resolver: for an occurrence whose
/// symbol the tables hold, introduced by a plain identifier of a declarator
/// or of a formal parameter, under the symbol's name, what [`report`] says
/// of the occurrence against that identifier; for any other, none.
pub open spec fn record_finding(
    check_builtins: bool,
    builtins: Set<Seq<char>>,
    record: RedeclarationView,
) -> Option<DiagnosticView> {
    match (record.symbol_name, record.scope, record.declaration) {
        (Some(symbol_name), Some(_), Some(DeclarationView::VariableDeclarator { name, span })) => {
            if name == symbol_name {
                report(check_builtins, builtins, symbol_name, span, record.span)
            } else {
                None
            }
        },
        (Some(symbol_name), Some(_), Some(DeclarationView::FormalParameter { name, span })) => {
            if name == symbol_name {
                report(check_builtins, builtins, symbol_name, span, record.span)
            } else {
                None
            }
        },
        _ => None,
    }
}

/// The findings for `records`, record by record.
pub open spec fn record_findings(
    check_builtins: bool,
    builtins: Set<Seq<char>>,
    records: Seq<RedeclarationView>,
) -> Seq<DiagnosticView>
    decreases records.len(),
{
    if records.len() == 0 {
        Seq::empty()
    } else {
        let earlier = record_findings(check_builtins, builtins, records.drop_last());
        match record_finding(check_builtins, builtins, records.last()) {
            Some(finding) => earlier.push(finding),
            None => earlier,
        }
    }
}

/// The findings for a resolved program are those of its records, one by
/// one and in their order: grouping the records first changes nothing.
pub proof fn program_findings_go_record_by_record(
    check_builtins: bool,
    builtins: Set<Seq<char>>,
    records: Seq<RedeclarationView>,
)
    ensures
        findings(check_builtins, builtins, groups_of(records)) == record_findings(
            check_builtins,
            builtins,
            records,
        ),
    decreases records.len(),
{
    if records.len() > 0 {
        program_findings_go_record_by_record(check_builtins, builtins, records.drop_last());
        let earlier = groups_of(records.drop_last());
        match group_of(records.last()) {
            Some(group) => {
                assert(earlier.push(group).drop_last() =~= earlier);
                assert(earlier.push(group).last() == group);
                let candidate = group.candidates[0];
                assert(group.candidates.drop_last() =~= Seq::<BindingView>::empty());
                assert(group.candidates.last() == candidate);
                assert(candidate_findings(
                    check_builtins,
                    builtins,
                    group.name,
                    group.anchor,
                    Seq::<BindingView>::empty(),
                ) =~= Seq::<DiagnosticView>::empty());
                let before = findings(check_builtins, builtins, earlier);
                match record_finding(check_builtins, builtins, records.last()) {
                    Some(finding) => {
                        assert(group_findings(check_builtins, builtins, group) =~= seq![finding]);
                        assert(before + seq![finding] =~= before.push(finding));
                    },
                    None => {
                        assert(group_findings(check_builtins, builtins, group) =~= Seq::<
                            DiagnosticView,
                        >::empty());
                        assert(before + Seq::<DiagnosticView>::empty() =~= before);
                    },
                }
            },
            None => {},
        }
    }
}

/// A resolved program gives at most one finding for each occurrence that the
/// resolver recorded.
pub proof fn at_most_one_finding_for_each_record(
    check_builtins: bool,
    builtins: Set<Seq<char>>,
    records: Seq<RedeclarationView>,
)
    ensures
        record_findings(check_builtins, builtins, records).len() <= records.len(),
    decreases records.len(),
{
    if records.len() > 0 {
        at_most_one_finding_for_each_record(check_builtins, builtins, records.drop_last());
    }
}

/// Every occurrence that the resolver recorded against a plain identifier
/// of a declarator or of a formal parameter has its finding among those of
/// the program, and the finding names the symbol and points at the
/// occurrence. So a second `var` of a name in one function body, or a `var`
/// of a parameter's name in the function's body, is always reported once
/// the resolver has recorded it.
pub proof fn recorded_redeclaration_has_its_finding(
    check_builtins: bool,
    builtins: Set<Seq<char>>,
    records: Seq<RedeclarationView>,
    i: int,
)
    requires
        0 <= i < records.len(),
        record_finding(check_builtins, builtins, records[i]) is Some,
    ensures
        findings(check_builtins, builtins, groups_of(records)).contains(
            record_finding(check_builtins, builtins, records[i])->0,
        ),
        records[i].symbol_name == Some(
            record_finding(check_builtins, builtins, records[i])->0.name(),
        ),
        record_finding(check_builtins, builtins, records[i])->0.primary_span() == records[i].span,
    decreases records.len(),
{
    program_findings_go_record_by_record(check_builtins, builtins, records);
    program_findings_go_record_by_record(check_builtins, builtins, records.drop_last());
    let all = record_findings(check_builtins, builtins, records);
    let earlier = record_findings(check_builtins, builtins, records.drop_last());
    let expected = record_finding(check_builtins, builtins, records[i])->0;
    if i == records.len() - 1 {
        assert(all[earlier.len() as int] == expected);
    } else {
        recorded_redeclaration_has_its_finding(check_builtins, builtins, records.drop_last(), i);
        let k = choose|k: int| 0 <= k < earlier.len() && earlier[k] == expected;
        assert(all[k] == expected);
    }
}

/// Every finding of a program is the finding for one of the occurrences
/// that the resolver recorded: where it recorded none, as for declarations
/// in different function bodies or for a plain assignment, nothing is
/// reported.
pub proof fn program_finding_has_its_record(
    check_builtins: bool,
    builtins: Set<Seq<char>>,
    records: Seq<RedeclarationView>,
    k: int,
)
    requires
        0 <= k < findings(check_builtins, builtins, groups_of(records)).len(),
    ensures
        exists|i: int|
            0 <= i < records.len() && record_finding(
                check_builtins,
                builtins,
                #[trigger] records[i],
            ) == Some(findings(check_builtins, builtins, groups_of(records))[k]),
    decreases records.len(),
{
    program_findings_go_record_by_record(check_builtins, builtins, records);
    program_findings_go_record_by_record(check_builtins, builtins, records.drop_last());
    let all = record_findings(check_builtins, builtins, records);
    let earlier = record_findings(check_builtins, builtins, records.drop_last());
    if k < earlier.len() {
        program_finding_has_its_record(check_builtins, builtins, records.drop_last(), k);
        let i = choose|i: int|
            0 <= i < records.drop_last().len() && record_finding(
                check_builtins,
                builtins,
                #[trigger] records.drop_last()[i],
            ) == Some(earlier[k]);
        assert(records[i] == records.drop_last()[i]);
    } else {
        let last = records.len() - 1;
        assert(records[last] == records.last());
        assert(record_finding(check_builtins, builtins, records[last]) == Some(all[k]));
    }
}

} // verus!
