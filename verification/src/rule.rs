//! The redeclaration classifier: for every candidate of every group, whether
//! it is reported, and as which diagnostic.

use vstd::prelude::*;

use crate::binding::{groups_view, Binding, BindingView, GroupView, RedeclarationGroup, SyntaxKind};
use crate::diagnostic::{diagnostics_view, optional_view, Diagnostic, DiagnosticView};
use crate::globals::BuiltinGlobalSet;
use crate::span::Span;

verus! {

/// The rule, with its one option.
#[derive(Clone, Copy, Debug, PartialEq, Eq, Structural)]
pub struct NoRedeclare {
    built_in_globals: bool,
}

/// Whether bindings of this kind are reported by this rule. Only the plain
/// identifiers of declarators and of formal parameters are.
pub open spec fn reportable(kind: SyntaxKind) -> bool {
    match kind {
        SyntaxKind::VariableDeclaratorIdentifier => true,
        SyntaxKind::FormalParameterIdentifier => true,
        SyntaxKind::DestructuredBinding => false,
        SyntaxKind::FunctionDeclaration => false,
        SyntaxKind::ClassDeclaration => false,
        SyntaxKind::Import => false,
        SyntaxKind::CatchParameter => false,
    }
}

/// The finding for an occurrence of `name` at `candidate` that redeclares the
/// declaration at `anchor`, once the occurrence is known to be of a reported
/// kind and under the tracked name.
///
/// An occurrence at the anchor's own span is the anchor seen again, and is
/// passed over. Otherwise, with the built-in check on and `name` among the
/// built-ins, the finding is the built-in one alone; else the ordinary one.
pub open spec fn report(
    check_builtins: bool,
    builtins: Set<Seq<char>>,
    name: Seq<char>,
    anchor: Span,
    candidate: Span,
) -> Option<DiagnosticView> {
    if candidate == anchor {
        None
    } else if check_builtins && builtins.contains(name) {
        Some(DiagnosticView::BuiltinShadow { name, span: candidate })
    } else {
        Some(DiagnosticView::Redeclare { name, redeclared: candidate, defined: anchor })
    }
}

/// The finding, if any, for one candidate of a group tracked under `name`.
pub open spec fn verdict(
    check_builtins: bool,
    builtins: Set<Seq<char>>,
    name: Seq<char>,
    anchor: BindingView,
    candidate: BindingView,
) -> Option<DiagnosticView> {
    if !reportable(candidate.kind) {
        None
    } else if candidate.name != name {
        None
    } else {
        report(check_builtins, builtins, name, anchor.span, candidate.span)
    }
}

/// The findings for `candidates`, in their order.
pub open spec fn candidate_findings(
    check_builtins: bool,
    builtins: Set<Seq<char>>,
    name: Seq<char>,
    anchor: BindingView,
    candidates: Seq<BindingView>,
) -> Seq<DiagnosticView>
    decreases candidates.len(),
{
    if candidates.len() == 0 {
        Seq::empty()
    } else {
        let earlier = candidate_findings(
            check_builtins,
            builtins,
            name,
            anchor,
            candidates.drop_last(),
        );
        match verdict(check_builtins, builtins, name, anchor, candidates.last()) {
            Some(finding) => earlier.push(finding),
            None => earlier,
        }
    }
}

/// The findings for one group.
pub open spec fn group_findings(
    check_builtins: bool,
    builtins: Set<Seq<char>>,
    group: GroupView,
) -> Seq<DiagnosticView> {
    candidate_findings(check_builtins, builtins, group.name, group.anchor, group.candidates)
}

/// The findings for `groups`: those of each group, in the order of the groups.
pub open spec fn findings(
    check_builtins: bool,
    builtins: Set<Seq<char>>,
    groups: Seq<GroupView>,
) -> Seq<DiagnosticView>
    decreases groups.len(),
{
    if groups.len() == 0 {
        Seq::empty()
    } else {
        findings(check_builtins, builtins, groups.drop_last()) + group_findings(
            check_builtins,
            builtins,
            groups.last(),
        )
    }
}

impl Default for NoRedeclare {
    /// The rule with the built-in check off.
    fn default() -> (rule: NoRedeclare)
        ensures
            !rule.checks_builtin_globals(),
    {
        NoRedeclare { built_in_globals: false }
    }
}

impl NoRedeclare {
    /// Whether redeclaring a built-in global is itself reported.
    pub closed spec fn checks_builtin_globals(self) -> bool {
        self.built_in_globals
    }

    /// The rule with the built-in check set to `built_in_globals`.
    pub fn new(built_in_globals: bool) -> (rule: NoRedeclare)
        ensures
            rule.checks_builtin_globals() == built_in_globals,
    {
        NoRedeclare { built_in_globals }
    }

    /// The rule with the built-in check as `option` sets it: on for `true`,
    /// off for `false` and where nothing is set.
    pub fn from_option(option: Option<bool>) -> (rule: NoRedeclare)
        ensures
            rule.checks_builtin_globals() == (option == Some(true)),
    {
        match option {
            Some(on) => NoRedeclare { built_in_globals: on },
            None => NoRedeclare { built_in_globals: false },
        }
    }

    /// Whether redeclaring a built-in global is itself reported.
    pub fn built_in_globals(&self) -> (on: bool)
        ensures
            on == self.checks_builtin_globals(),
    {
        self.built_in_globals
    }

    /// The finding for an occurrence of `name` at `candidate` that redeclares
    /// the declaration at `anchor`.
    pub fn report_diagnostic(
        &self,
        name: &String,
        anchor: Span,
        candidate: Span,
        builtins: &BuiltinGlobalSet,
    ) -> (finding: Option<Diagnostic>)
        ensures
            optional_view(finding) == report(
                self.checks_builtin_globals(),
                builtins@,
                name@,
                anchor,
                candidate,
            ),
    {
        if candidate == anchor {
            None
        } else if self.built_in_globals && builtins.is_builtin_global(name.as_str()) {
            Some(Diagnostic::BuiltinShadow { name: name.clone(), span: candidate })
        } else {
            Some(Diagnostic::Redeclare { name: name.clone(), redeclared: candidate, defined: anchor })
        }
    }

    /// The finding, if any, for one candidate of a group tracked under `name`
    /// and anchored at `anchor`.
    pub fn classify_candidate(
        &self,
        name: &String,
        anchor: &Binding,
        candidate: &Binding,
        builtins: &BuiltinGlobalSet,
    ) -> (finding: Option<Diagnostic>)
        ensures
            optional_view(finding) == verdict(
                self.checks_builtin_globals(),
                builtins@,
                name@,
                anchor@,
                candidate@,
            ),
    {
        match candidate.kind {
            SyntaxKind::VariableDeclaratorIdentifier | SyntaxKind::FormalParameterIdentifier => {
                if candidate.name == *name {
                    self.report_diagnostic(name, anchor.span, candidate.span, builtins)
                } else {
                    None
                }
            },
            SyntaxKind::DestructuredBinding => None,
            SyntaxKind::FunctionDeclaration => None,
            SyntaxKind::ClassDeclaration => None,
            SyntaxKind::Import => None,
            SyntaxKind::CatchParameter => None,
        }
    }

    /// Appends the findings for one group to `sink`, in the order of the
    /// group's candidates. What `sink` holds stays in place.
    pub fn emit_group(
        &self,
        group: &RedeclarationGroup,
        builtins: &BuiltinGlobalSet,
        sink: &mut Vec<Diagnostic>,
    )
        ensures
            old(sink)@.len() <= final(sink)@.len(),
            final(sink)@.take(old(sink)@.len() as int) == old(sink)@,
            diagnostics_view(final(sink)@.skip(old(sink)@.len() as int)) == group_findings(
                self.checks_builtin_globals(),
                builtins@,
                group@,
            ),
    {
        let ghost check = self.checks_builtin_globals();
        let ghost before = sink@;
        let ghost candidates = group@.candidates;
        let n = group.candidates.len();
        let mut i: usize = 0;
        assert(sink@.take(before.len() as int) =~= before);
        assert(diagnostics_view(sink@.skip(before.len() as int)) =~= candidate_findings(
            check,
            builtins@,
            group@.name,
            group@.anchor,
            candidates.take(0),
        ));
        while i < n
            invariant
                n == group.candidates@.len(),
                0 <= i <= n,
                check == self.checks_builtin_globals(),
                candidates == group@.candidates,
                before.len() <= sink@.len(),
                sink@.take(before.len() as int) == before,
                diagnostics_view(sink@.skip(before.len() as int)) == candidate_findings(
                    check,
                    builtins@,
                    group@.name,
                    group@.anchor,
                    candidates.take(i as int),
                ),
            decreases n - i,
        {
            let candidate = &group.candidates[i];
            let finding = self.classify_candidate(&group.name, &group.anchor, candidate, builtins);
            proof {
                assert(candidates[i as int] == candidate@);
                assert(candidates.take(i + 1).drop_last() =~= candidates.take(i as int));
                assert(candidates.take(i + 1).last() == candidate@);
            }
            match finding {
                Some(d) => {
                    let ghost held = sink@;
                    sink.push(d);
                    assert(sink@.take(before.len() as int) =~= held.take(before.len() as int));
                    assert(sink@.skip(before.len() as int) =~= held.skip(before.len() as int).push(
                        d,
                    ));
                    assert(diagnostics_view(sink@.skip(before.len() as int)) =~= diagnostics_view(
                        held.skip(before.len() as int),
                    ).push(d@));
                },
                None => {},
            }
            i = i + 1;
        }
        assert(candidates.take(n as int) =~= candidates);
    }

    /// Appends the findings for `groups` to `sink`: for every candidate of
    /// every group, in the order of the groups and, within a group, of its
    /// candidates. What `sink` holds stays in place.
    pub fn emit(
        &self,
        groups: &Vec<RedeclarationGroup>,
        builtins: &BuiltinGlobalSet,
        sink: &mut Vec<Diagnostic>,
    )
        ensures
            old(sink)@.len() <= final(sink)@.len(),
            final(sink)@.take(old(sink)@.len() as int) == old(sink)@,
            diagnostics_view(final(sink)@.skip(old(sink)@.len() as int)) == findings(
                self.checks_builtin_globals(),
                builtins@,
                groups_view(groups@),
            ),
    {
        let ghost check = self.checks_builtin_globals();
        let ghost all = groups_view(groups@);
        let ghost before = sink@;
        let n = groups.len();
        let mut i: usize = 0;
        assert(sink@.take(before.len() as int) =~= before);
        assert(diagnostics_view(sink@.skip(before.len() as int)) =~= findings(
            check,
            builtins@,
            all.take(0),
        ));
        while i < n
            invariant
                n == groups@.len(),
                0 <= i <= n,
                check == self.checks_builtin_globals(),
                all == groups_view(groups@),
                before.len() <= sink@.len(),
                sink@.take(before.len() as int) == before,
                diagnostics_view(sink@.skip(before.len() as int)) == findings(
                    check,
                    builtins@,
                    all.take(i as int),
                ),
            decreases n - i,
        {
            let ghost held = sink@;
            self.emit_group(&groups[i], builtins, sink);
            proof {
                assert(all.take(i + 1).drop_last() =~= all.take(i as int));
                assert(all.take(i + 1).last() == groups@[i as int]@);
                assert(sink@.take(before.len() as int) =~= held.take(before.len() as int));
                assert(sink@.skip(before.len() as int) =~= held.skip(before.len() as int)
                    + sink@.skip(held.len() as int));
                assert(diagnostics_view(sink@.skip(before.len() as int)) =~= diagnostics_view(
                    held.skip(before.len() as int),
                ) + diagnostics_view(sink@.skip(held.len() as int)));
            }
            i = i + 1;
        }
        assert(all.take(n as int) =~= all);
    }

    /// The findings for one group, in the order of its candidates.
    pub fn classify_group(&self, group: &RedeclarationGroup, builtins: &BuiltinGlobalSet) -> (out:
        Vec<Diagnostic>)
        ensures
            diagnostics_view(out@) == group_findings(
                self.checks_builtin_globals(),
                builtins@,
                group@,
            ),
    {
        let mut out: Vec<Diagnostic> = Vec::new();
        self.emit_group(group, builtins, &mut out);
        assert(out@.skip(0) =~= out@);
        out
    }

    /// The findings for `groups`: for every candidate of every group, in the
    /// order of the groups and, within a group, of its candidates.
    pub fn classify(&self, groups: &Vec<RedeclarationGroup>, builtins: &BuiltinGlobalSet) -> (out:
        Vec<Diagnostic>)
        ensures
            diagnostics_view(out@) == findings(
                self.checks_builtin_globals(),
                builtins@,
                groups_view(groups@),
            ),
    {
        let mut out: Vec<Diagnostic> = Vec::new();
        self.emit(groups, builtins, &mut out);
        assert(out@.skip(0) =~= out@);
        out
    }
}

} // verus!
