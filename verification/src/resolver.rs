//! What the rule reads from a resolved program: the occurrences that the
//! resolver recorded as declaring an existing symbol again, each with what
//! the resolver's tables hold of the symbol; and how they become the groups
//! that the classifier judges.
//!
//! A resolved program need not come from a resolver's pass over a syntax
//! tree: its tables can be filled by hand, and an occurrence can then name a
//! symbol that a table lacks. Every lookup here is a checked one, and what
//! a table lacks is recorded as absent.

use oxc_ast::ast::BindingPatternKind;
use oxc_ast::AstKind;
use oxc_semantic::Semantic;
use vstd::prelude::*;

use crate::binding::{groups_view, Binding, BindingView, GroupView, RedeclarationGroup, SyntaxKind};
use crate::diagnostic::{diagnostics_view, Diagnostic};
use crate::globals::BuiltinGlobalSet;
use crate::rule::{findings, NoRedeclare};
use crate::span::Span;

verus! {

/// `oxc_semantic::Semantic`: a program after scope and symbol resolution.
/// Nothing of its inside is known here but through [`redeclarations`].
#[verifier::external_type_specification]
#[verifier::external_body]
pub struct ExSemantic<'a>(Semantic<'a>);

/// The declaration that introduced a symbol, as far as this rule tells
/// declarations apart.
#[derive(Clone, Debug, PartialEq, Eq)]
pub enum Declaration {
    /// A declarator that binds the plain identifier `name` at `span`.
    VariableDeclarator { name: String, span: Span },
    /// A formal parameter that binds the plain identifier `name` at `span`.
    FormalParameter { name: String, span: Span },
    /// Anything else: a destructuring declarator or parameter, a function,
    /// a class, an import, a catch clause.
    Other,
}

/// The mathematical value of a [`Declaration`].
pub enum DeclarationView {
    VariableDeclarator { name: Seq<char>, span: Span },
    FormalParameter { name: Seq<char>, span: Span },
    Other,
}

impl View for Declaration {
    type V = DeclarationView;

    open spec fn view(&self) -> DeclarationView {
        match *self {
            Declaration::VariableDeclarator { name, span } => DeclarationView::VariableDeclarator {
                name: name@,
                span,
            },
            Declaration::FormalParameter { name, span } => DeclarationView::FormalParameter {
                name: name@,
                span,
            },
            Declaration::Other => DeclarationView::Other,
        }
    }
}

/// What the resolver recorded about one occurrence that declares an already
/// declared symbol again. What its tables lack of the symbol is absent.
#[derive(Clone, Debug, PartialEq, Eq)]
pub struct Redeclaration {
    /// Where the occurrence is.
    pub span: Span,
    /// The name of the symbol.
    pub symbol_name: Option<String>,
    /// The scope of the symbol.
    pub scope: Option<u32>,
    /// The declaration that introduced the symbol.
    pub declaration: Option<Declaration>,
}

/// The mathematical value of a [`Redeclaration`].
pub struct RedeclarationView {
    pub span: Span,
    pub symbol_name: Option<Seq<char>>,
    pub scope: Option<u32>,
    pub declaration: Option<DeclarationView>,
}

/// The value of a name that may be absent.
pub open spec fn optional_name_view(name: Option<String>) -> Option<Seq<char>> {
    match name {
        Some(n) => Some(n@),
        None => None,
    }
}

/// The value of a declaration that may be absent.
pub open spec fn optional_declaration_view(declaration: Option<Declaration>) -> Option<
    DeclarationView,
> {
    match declaration {
        Some(d) => Some(d@),
        None => None,
    }
}

impl View for Redeclaration {
    type V = RedeclarationView;

    open spec fn view(&self) -> RedeclarationView {
        RedeclarationView {
            span: self.span,
            symbol_name: optional_name_view(self.symbol_name),
            scope: self.scope,
            declaration: optional_declaration_view(self.declaration),
        }
    }
}

/// The values of a sequence of records.
pub open spec fn redeclarations_view(records: Seq<Redeclaration>) -> Seq<RedeclarationView> {
    records.map_values(|r: Redeclaration| r@)
}

/// The redeclaring occurrences that `semantic` holds, in the order in which
/// the resolver met them: each with its span and with the name, the scope
/// and the declaring node that the tables hold for its symbol, absent where
/// a table lacks them.
pub uninterp spec fn redeclarations(semantic: Semantic) -> Seq<RedeclarationView>;

/// `Semantic::redeclare_variables`, counted: how many redeclaring
/// occurrences the resolver recorded.
#[verifier::external_body]
fn redeclared_len(semantic: &Semantic<'_>) -> (len: usize)
    ensures
        len == redeclarations(*semantic).len(),
{
    semantic.redeclare_variables().len()
}

/// `Semantic::redeclare_variables`, read at `index`: the span of that
/// occurrence.
#[verifier::external_body]
fn redeclared_span(semantic: &Semantic<'_>, index: usize) -> (span: Span)
    requires
        index < redeclarations(*semantic).len(),
    ensures
        span == redeclarations(*semantic)[index as int].span,
{
    let span = semantic.redeclare_variables()[index].span;
    Span { start: span.start, end: span.end }
}

/// `IndexVec::get` on `SymbolTable::names`, for the symbol of the occurrence
/// at `index`: the name that the table holds for the symbol, or nothing
/// where the table does not reach that far.
#[verifier::external_body]
fn symbol_name(semantic: &Semantic<'_>, index: usize) -> (name: Option<String>)
    requires
        index < redeclarations(*semantic).len(),
    ensures
        optional_name_view(name) == redeclarations(*semantic)[index as int].symbol_name,
{
    let symbol_id = semantic.redeclare_variables()[index].symbol_id;
    match semantic.symbols().names.get(symbol_id) {
        Some(name) => Some(name.to_string()),
        None => None,
    }
}

/// `IndexVec::get` on `SymbolTable::scope_ids`, for the symbol of the
/// occurrence at `index`: the number of the scope that the table holds for
/// the symbol, or nothing where the table does not reach that far.
#[verifier::external_body]
fn symbol_scope(semantic: &Semantic<'_>, index: usize) -> (scope: Option<u32>)
    requires
        index < redeclarations(*semantic).len(),
    ensures
        scope == redeclarations(*semantic)[index as int].scope,
{
    let symbol_id = semantic.redeclare_variables()[index].symbol_id;
    match semantic.symbols().scope_ids.get(symbol_id) {
        Some(scope_id) => Some(scope_id.raw()),
        None => None,
    }
}

/// `IndexVec::get` on `SymbolTable::declarations`, then the node at that
/// place of `AstNodes::iter`, for the symbol of the occurrence at `index`:
/// the node that introduced the symbol, told apart by its kind and by the
/// kind of its binding pattern; or nothing where either table does not
/// reach that far.
#[verifier::external_body]
fn symbol_declaration(semantic: &Semantic<'_>, index: usize) -> (declaration: Option<Declaration>)
    requires
        index < redeclarations(*semantic).len(),
    ensures
        optional_declaration_view(declaration) == redeclarations(
            *semantic,
        )[index as int].declaration,
{
    let symbol_id = semantic.redeclare_variables()[index].symbol_id;
    let node_id = semantic.symbols().declarations.get(symbol_id)?;
    Some(match semantic.nodes().iter().nth(node_id.index())?.kind() {
        AstKind::VariableDeclarator(declarator) => match &declarator.id.kind {
            BindingPatternKind::BindingIdentifier(ident) => Declaration::VariableDeclarator { name: ident.name.to_string(), span: Span { start: ident.span.start, end: ident.span.end } },
            _ => Declaration::Other,
        },
        AstKind::FormalParameter(parameter) => match &parameter.pattern.kind {
            BindingPatternKind::BindingIdentifier(ident) => Declaration::FormalParameter { name: ident.name.to_string(), span: Span { start: ident.span.start, end: ident.span.end } },
            _ => Declaration::Other,
        },
        _ => Declaration::Other,
    })
}

/// The group of two that pairs a redeclaring occurrence at `occurrence` with
/// the plain identifier `name` at `span` that introduced its symbol. The
/// identifier is the anchor. The occurrence is the one candidate: the
/// resolver keeps kind and identifier text by symbol, so the occurrence is
/// judged by the construct that declared its symbol and carries the text
/// found there.
pub open spec fn paired(
    symbol_name: Seq<char>,
    scope: u32,
    occurrence: Span,
    kind: SyntaxKind,
    name: Seq<char>,
    span: Span,
) -> GroupView {
    GroupView {
        name: symbol_name,
        anchor: BindingView { name, span, kind, scope },
        candidates: seq![BindingView { name, span: occurrence, kind, scope }],
    }
}

/// The group that one record gives rise to. A record gives none where the
/// tables lack the symbol's name, scope or declaration, and none where the
/// symbol was introduced by anything but a plain identifier of a declarator
/// or of a formal parameter.
pub open spec fn group_of(record: RedeclarationView) -> Option<GroupView> {
    match (record.symbol_name, record.scope, record.declaration) {
        (
            Some(symbol_name),
            Some(scope),
            Some(DeclarationView::VariableDeclarator { name, span }),
        ) => Some(
            paired(
                symbol_name,
                scope,
                record.span,
                SyntaxKind::VariableDeclaratorIdentifier,
                name,
                span,
            ),
        ),
        (Some(symbol_name), Some(scope), Some(DeclarationView::FormalParameter { name, span })) => {
            Some(
                paired(
                    symbol_name,
                    scope,
                    record.span,
                    SyntaxKind::FormalParameterIdentifier,
                    name,
                    span,
                ),
            )
        },
        _ => None,
    }
}

/// The groups that `records` give rise to, in the order of the records.
pub open spec fn groups_of(records: Seq<RedeclarationView>) -> Seq<GroupView>
    decreases records.len(),
{
    if records.len() == 0 {
        Seq::empty()
    } else {
        match group_of(records.last()) {
            Some(group) => groups_of(records.drop_last()).push(group),
            None => groups_of(records.drop_last()),
        }
    }
}

/// The value of a group that may be absent.
pub open spec fn optional_group_view(group: Option<RedeclarationGroup>) -> Option<GroupView> {
    match group {
        Some(g) => Some(g@),
        None => None,
    }
}

impl Redeclaration {
    /// The group that the record gives rise to.
    pub fn group(&self) -> (group: Option<RedeclarationGroup>)
        ensures
            optional_group_view(group) == group_of(self@),
    {
        let symbol_name = match &self.symbol_name {
            Some(symbol_name) => symbol_name,
            None => { return None; },
        };
        let scope = match self.scope {
            Some(scope) => scope,
            None => { return None; },
        };
        let (kind, name, span) = match &self.declaration {
            Some(Declaration::VariableDeclarator { name, span }) => (
                SyntaxKind::VariableDeclaratorIdentifier,
                name,
                *span,
            ),
            Some(Declaration::FormalParameter { name, span }) => (
                SyntaxKind::FormalParameterIdentifier,
                name,
                *span,
            ),
            Some(Declaration::Other) => { return None; },
            None => { return None; },
        };
        let anchor = Binding { name: name.clone(), span, kind, scope };
        let candidate = Binding { name: name.clone(), span: self.span, kind, scope };
        let mut candidates: Vec<Binding> = Vec::new();
        candidates.push(candidate);
        let group = RedeclarationGroup { name: symbol_name.clone(), anchor, candidates };
        assert(group@.candidates =~= seq![candidate@]);
        Some(group)
    }
}

/// The groups that `records` give rise to, in the order of the records.
pub fn group_redeclarations(records: &Vec<Redeclaration>) -> (groups: Vec<RedeclarationGroup>)
    ensures
        groups_view(groups@) == groups_of(redeclarations_view(records@)),
{
    let ghost all = redeclarations_view(records@);
    let mut groups: Vec<RedeclarationGroup> = Vec::new();
    let n = records.len();
    let mut i: usize = 0;
    assert(groups_view(groups@) =~= groups_of(all.take(0)));
    while i < n
        invariant
            all == redeclarations_view(records@),
            n == records@.len(),
            0 <= i <= n,
            groups_view(groups@) == groups_of(all.take(i as int)),
        decreases n - i,
    {
        proof {
            assert(all.take(i + 1).drop_last() =~= all.take(i as int));
            assert(all.take(i + 1).last() == records@[i as int]@);
        }
        match records[i].group() {
            Some(group) => {
                let ghost shown = groups_view(groups@);
                groups.push(group);
                assert(groups_view(groups@) =~= shown.push(group@));
            },
            None => {},
        }
        i = i + 1;
    }
    assert(all.take(n as int) =~= all);
    groups
}

/// The redeclaring occurrences that the resolver recorded in `semantic`.
pub fn recorded_redeclarations(semantic: &Semantic<'_>) -> (records: Vec<Redeclaration>)
    ensures
        redeclarations_view(records@) == redeclarations(*semantic),
{
    let mut records: Vec<Redeclaration> = Vec::new();
    let n = redeclared_len(semantic);
    let mut i: usize = 0;
    assert(redeclarations_view(records@) =~= redeclarations(*semantic).take(0));
    while i < n
        invariant
            n == redeclarations(*semantic).len(),
            0 <= i <= n,
            redeclarations_view(records@) == redeclarations(*semantic).take(i as int),
        decreases n - i,
    {
        let record = Redeclaration {
            span: redeclared_span(semantic, i),
            symbol_name: symbol_name(semantic, i),
            scope: symbol_scope(semantic, i),
            declaration: symbol_declaration(semantic, i),
        };
        let ghost shown = redeclarations_view(records@);
        records.push(record);
        assert(redeclarations_view(records@) =~= shown.push(record@));
        assert(redeclarations(*semantic).take(i + 1) =~= redeclarations(*semantic).take(
            i as int,
        ).push(redeclarations(*semantic)[i as int]));
        i = i + 1;
    }
    assert(redeclarations(*semantic).take(n as int) =~= redeclarations(*semantic));
    records
}

impl NoRedeclare {
    /// The findings for a resolved program: those for the groups that its
    /// redeclaring occurrences give rise to.
    pub fn run_once(&self, semantic: &Semantic<'_>, builtins: &BuiltinGlobalSet) -> (out: Vec<
        Diagnostic,
    >)
        ensures
            diagnostics_view(out@) == findings(
                self.checks_builtin_globals(),
                builtins@,
                groups_of(redeclarations(*semantic)),
            ),
    {
        let records = recorded_redeclarations(semantic);
        let groups = group_redeclarations(&records);
        self.classify(&groups, builtins)
    }
}

} // verus!
