//! The resolved program model the classifier consumes: bindings, and the
//! groups of same-named bindings that a resolver found in one effective scope.

use vstd::prelude::*;

use crate::span::Span;

verus! {

/// The syntax construct that introduced a binding.
#[derive(Clone, Copy, Debug, PartialEq, Eq, Structural)]
pub enum SyntaxKind {
    /// The plain identifier bound by a `var`, `let` or `const` declarator.
    VariableDeclaratorIdentifier,
    /// The plain identifier of a formal parameter.
    FormalParameterIdentifier,
    /// A name bound inside a destructuring pattern.
    DestructuredBinding,
    /// The name of a function declaration.
    FunctionDeclaration,
    /// The name of a class declaration.
    ClassDeclaration,
    /// A name brought in by an import.
    Import,
    /// The parameter of a `catch` clause.
    CatchParameter,
}

/// A named declaration site.
#[derive(Clone, Debug, PartialEq, Eq)]
pub struct Binding {
    /// The identifier text at the declaration site.
    pub name: String,
    /// Where the identifier occurs.
    pub span: Span,
    /// The construct that introduced it.
    pub kind: SyntaxKind,
    /// The scope the resolver bound the name in.
    pub scope: u32,
}

/// The mathematical value of a [`Binding`].
pub struct BindingView {
    pub name: Seq<char>,
    pub span: Span,
    pub kind: SyntaxKind,
    pub scope: u32,
}

impl View for Binding {
    type V = BindingView;

    open spec fn view(&self) -> BindingView {
        BindingView { name: self.name@, span: self.span, kind: self.kind, scope: self.scope }
    }
}

impl Binding {
    /// A binding of `name` at `span`, introduced by a construct of `kind` in `scope`.
    pub fn new(name: String, span: Span, kind: SyntaxKind, scope: u32) -> (binding: Binding)
        ensures
            binding@ == (BindingView { name: name@, span, kind, scope }),
    {
        Binding { name, span, kind, scope }
    }
}

/// Bindings that share a name within one effective declarative scope.
///
/// The anchor is the declaration the others are judged against; the
/// candidates are the bindings a resolver reported as redeclaring it.
#[derive(Clone, Debug, PartialEq, Eq)]
pub struct RedeclarationGroup {
    /// The name the resolver tracked the group under.
    pub name: String,
    /// The reference declaration.
    pub anchor: Binding,
    /// The other members, in source order.
    pub candidates: Vec<Binding>,
}

/// The mathematical value of a [`RedeclarationGroup`].
pub struct GroupView {
    pub name: Seq<char>,
    pub anchor: BindingView,
    pub candidates: Seq<BindingView>,
}

/// The values of a sequence of bindings.
pub open spec fn bindings_view(bindings: Seq<Binding>) -> Seq<BindingView> {
    bindings.map_values(|b: Binding| b@)
}

/// The values of a sequence of groups.
pub open spec fn groups_view(groups: Seq<RedeclarationGroup>) -> Seq<GroupView> {
    groups.map_values(|g: RedeclarationGroup| g@)
}

impl View for RedeclarationGroup {
    type V = GroupView;

    open spec fn view(&self) -> GroupView {
        GroupView {
            name: self.name@,
            anchor: self.anchor@,
            candidates: bindings_view(self.candidates@),
        }
    }
}

impl GroupView {
    /// What a resolver owes for every group it hands over: at least one
    /// candidate besides the anchor, every member under the tracked name and
    /// in the anchor's scope, the anchor first in source order, and the
    /// candidates in source order.
    pub open spec fn well_formed(self) -> bool {
        &&& self.candidates.len() >= 1
        &&& self.anchor.name == self.name
        &&& forall|i: int|
            0 <= i < self.candidates.len() ==> {
                &&& (#[trigger] self.candidates[i]).name == self.name
                &&& self.candidates[i].scope == self.anchor.scope
                &&& self.anchor.span.start <= self.candidates[i].span.start
            }
        &&& forall|i: int, j: int|
            0 <= i <= j < self.candidates.len() ==> (#[trigger] self.candidates[i]).span.start
                <= (#[trigger] self.candidates[j]).span.start
    }
}

impl RedeclarationGroup {
    /// The group tracked under `name`, with its anchor and candidates.
    pub fn new(name: String, anchor: Binding, candidates: Vec<Binding>) -> (group:
        RedeclarationGroup)
        ensures
            group@ == (GroupView {
                name: name@,
                anchor: anchor@,
                candidates: bindings_view(candidates@),
            }),
    {
        RedeclarationGroup { name, anchor, candidates }
    }

    /// Whether the group is what a resolver owes.
    pub fn is_well_formed(&self) -> (ok: bool)
        ensures
            ok == self@.well_formed(),
    {
        if self.candidates.len() == 0 {
            return false;
        }
        if !(self.anchor.name == self.name) {
            return false;
        }
        let n = self.candidates.len();
        let mut i: usize = 0;
        while i < n
            invariant
                n == self.candidates@.len(),
                0 <= i <= n,
                self.anchor.name@ == self.name@,
                forall|k: int|
                    0 <= k < i ==> {
                        &&& (#[trigger] self@.candidates[k]).name == self@.name
                        &&& self@.candidates[k].scope == self@.anchor.scope
                        &&& self@.anchor.span.start <= self@.candidates[k].span.start
                    },
                forall|k: int|
                    0 < k < i ==> (#[trigger] self@.candidates[k - 1]).span.start
                        <= self@.candidates[k].span.start,
            decreases n - i,
        {
            let candidate = &self.candidates[i];
            assert(self@.candidates[i as int] == candidate@);
            if !(candidate.name == self.name) || candidate.scope != self.anchor.scope
                || self.anchor.span.start > candidate.span.start {
                return false;
            }
            if i > 0 {
                let previous = &self.candidates[i - 1];
                assert(self@.candidates[i - 1] == previous@);
                if previous.span.start > candidate.span.start {
                    return false;
                }
            }
            i = i + 1;
        }
        proof {
            lemma_adjacent_order(self@.candidates);
        }
        true
    }
}

/// Candidates that are pairwise in order when each is in order with its
/// predecessor.
proof fn lemma_adjacent_order(candidates: Seq<BindingView>)
    requires
        forall|k: int|
            0 < k < candidates.len() ==> (#[trigger] candidates[k - 1]).span.start
                <= candidates[k].span.start,
    ensures
        forall|i: int, j: int|
            0 <= i <= j < candidates.len() ==> (#[trigger] candidates[i]).span.start
                <= (#[trigger] candidates[j]).span.start,
{
    assert forall|i: int, j: int| 0 <= i <= j < candidates.len() implies (
    #[trigger] candidates[i]).span.start <= (#[trigger] candidates[j]).span.start by {
        lemma_order_between(candidates, i, j);
    }
}

proof fn lemma_order_between(candidates: Seq<BindingView>, i: int, j: int)
    requires
        0 <= i <= j < candidates.len(),
        forall|k: int|
            0 < k < candidates.len() ==> (#[trigger] candidates[k - 1]).span.start
                <= candidates[k].span.start,
    ensures
        candidates[i].span.start <= candidates[j].span.start,
    decreases j - i,
{
    if i < j {
        lemma_order_between(candidates, i, j - 1);
        assert(candidates[(j - 1) as int].span.start <= candidates[j].span.start) by {
            let k = j;
            assert(candidates[k - 1].span.start <= candidates[k].span.start);
        }
    }
}

} // verus!
