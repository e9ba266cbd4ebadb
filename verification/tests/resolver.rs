use no_redeclare::binding::{Binding, RedeclarationGroup, SyntaxKind};
use no_redeclare::resolver::{group_redeclarations, recorded_redeclarations, Declaration, Redeclaration};
use no_redeclare::span::Span;
use oxc_allocator::Allocator;
use oxc_parser::Parser;
use no_redeclare::globals::BuiltinGlobalSet;
use no_redeclare::rule::NoRedeclare;
use oxc_semantic::{AstNodeId, SemanticBuilder, SymbolFlags, SymbolId, VariableInfo};
use oxc_span::{Atom, SourceType};

/// What the resolver recorded for `source`.
fn records(source: &str) -> Vec<Redeclaration> {
    let allocator = Allocator::default();
    let source_type = SourceType::from_path("no_redeclare.tsx").unwrap();
    let parsed = Parser::new(&allocator, source, source_type).parse();
    assert!(parsed.errors.is_empty());
    let program = allocator.alloc(parsed.program);
    let resolved = SemanticBuilder::new(source, source_type).build(program);
    assert!(resolved.errors.is_empty());
    recorded_redeclarations(&resolved.semantic)
}

fn groups(source: &str) -> Vec<RedeclarationGroup> {
    group_redeclarations(&records(source))
}

fn record(start: u32, name: &str, scope: u32, declaration: Declaration) -> Redeclaration {
    Redeclaration {
        span: Span::new(start, start + name.len() as u32),
        symbol_name: Some(name.to_string()),
        scope: Some(scope),
        declaration: Some(declaration),
    }
}

fn declarator(name: &str, start: u32) -> Declaration {
    Declaration::VariableDeclarator {
        name: name.to_string(),
        span: Span::new(start, start + name.len() as u32),
    }
}

fn parameter(name: &str, start: u32) -> Declaration {
    Declaration::FormalParameter {
        name: name.to_string(),
        span: Span::new(start, start + name.len() as u32),
    }
}

fn pair(name: &str, kind: SyntaxKind, scope: u32, anchor: u32, candidate: u32) -> RedeclarationGroup {
    let len = name.len() as u32;
    RedeclarationGroup::new(
        name.to_string(),
        Binding::new(name.to_string(), Span::new(anchor, anchor + len), kind, scope),
        vec![Binding::new(name.to_string(), Span::new(candidate, candidate + len), kind, scope)],
    )
}

#[test]
fn program_without_redeclaration_has_no_record() {
    assert!(records("var a = 3; a = 10; let b; { let b; }").is_empty());
    assert!(groups("var a = 3; a = 10; let b; { let b; }").is_empty());
}

#[test]
fn redeclared_var_is_recorded_with_its_declarator() {
    let source = "var a; var abc; var abc;";
    assert_eq!(records(source), vec![record(20, "abc", 0, declarator("abc", 11))]);
    let expected = pair("abc", SyntaxKind::VariableDeclaratorIdentifier, 0, 11, 20);
    assert_eq!(groups(source), vec![expected]);
    assert!(groups(source)[0].is_well_formed());
}

#[test]
fn redeclared_parameter_is_recorded_with_the_parameter() {
    let source = "function f(a) { var a; }";
    assert_eq!(records(source), vec![record(20, "a", 1, parameter("a", 11))]);
    assert_eq!(groups(source), vec![pair("a", SyntaxKind::FormalParameterIdentifier, 1, 11, 20)]);
}

#[test]
fn every_occurrence_gets_a_group_of_its_own() {
    let source = "function f() { var a; var [a] = []; var {b: a} = {}; var a = 1; }";
    let kind = SyntaxKind::VariableDeclaratorIdentifier;
    assert_eq!(
        records(source),
        vec![
            record(27, "a", 1, declarator("a", 19)),
            record(44, "a", 1, declarator("a", 19)),
            record(57, "a", 1, declarator("a", 19)),
        ]
    );
    assert_eq!(
        groups(source),
        vec![pair("a", kind, 1, 19, 27), pair("a", kind, 1, 19, 44), pair("a", kind, 1, 19, 57)]
    );
}

#[test]
fn occurrence_takes_the_kind_of_the_declaration_of_its_symbol() {
    let source = "function f() { var a; function a() {} }";
    assert_eq!(records(source), vec![record(31, "a", 1, declarator("a", 19))]);
    assert_eq!(groups(source), vec![pair("a", SyntaxKind::VariableDeclaratorIdentifier, 1, 19, 31)]);
}

#[test]
fn symbols_of_other_declarations_give_no_group() {
    for (source, at) in [
        ("function f() { function a() {} var a; }", 35),
        ("function f() { var {a} = {}; var a; }", 33),
        ("function f({a}) { var a; }", 22),
        ("function f(...a) { var a; }", 23),
        ("try {} catch (e) { var e; }", 23),
    ] {
        let recorded = records(source);
        assert_eq!(recorded.len(), 1, "{source}");
        assert_eq!(recorded[0].span, Span::new(at, at + 1), "{source}");
        assert_eq!(recorded[0].declaration, Some(Declaration::Other), "{source}");
        assert_eq!(recorded[0].group(), None, "{source}");
        assert!(groups(source).is_empty(), "{source}");
    }
}

#[test]
fn groups_are_skipped_without_losing_the_order() {
    let source = "function f(p) { function g() {} var g; var p; var v; var v; }";
    let recorded = records(source);
    assert_eq!(recorded.len(), 3);
    assert_eq!(recorded[0].symbol_name, Some("g".to_string()));
    assert_eq!(
        groups(source),
        vec![
            pair("p", SyntaxKind::FormalParameterIdentifier, 1, 11, 43),
            pair("v", SyntaxKind::VariableDeclaratorIdentifier, 1, 50, 57),
        ]
    );
}

#[test]
fn record_of_a_declarator_gives_a_pair() {
    let given = record(30, "abc", 7, declarator("abc", 4));
    assert_eq!(given.group(), Some(pair("abc", SyntaxKind::VariableDeclaratorIdentifier, 7, 4, 30)));
}

#[test]
fn record_of_a_parameter_gives_a_pair() {
    let given = record(30, "abc", 7, parameter("abc", 4));
    assert_eq!(given.group(), Some(pair("abc", SyntaxKind::FormalParameterIdentifier, 7, 4, 30)));
}

#[test]
fn record_of_another_declaration_gives_no_group() {
    assert_eq!(record(30, "abc", 7, Declaration::Other).group(), None);
}

#[test]
fn group_is_tracked_under_the_name_of_the_symbol() {
    let given = record(30, "key", 2, declarator("local", 4));
    let group = given.group().unwrap();
    assert_eq!(group.name, "key");
    assert_eq!(group.anchor, Binding::new("local".to_string(), Span::new(4, 9), SyntaxKind::VariableDeclaratorIdentifier, 2));
    assert_eq!(
        group.candidates,
        vec![Binding::new("local".to_string(), Span::new(30, 33), SyntaxKind::VariableDeclaratorIdentifier, 2)]
    );
}

#[test]
fn grouping_keeps_the_order_of_the_records() {
    let given = vec![
        record(30, "b", 0, declarator("b", 20)),
        record(40, "f", 0, Declaration::Other),
        record(50, "a", 1, parameter("a", 10)),
    ];
    assert_eq!(
        group_redeclarations(&given),
        vec![
            pair("b", SyntaxKind::VariableDeclaratorIdentifier, 0, 20, 30),
            pair("a", SyntaxKind::FormalParameterIdentifier, 1, 10, 50),
        ]
    );
    assert!(group_redeclarations(&Vec::new()).is_empty());
}

#[test]
fn record_without_a_name_gives_no_group() {
    let mut given = record(30, "abc", 7, declarator("abc", 4));
    given.symbol_name = None;
    assert_eq!(given.group(), None);
}

#[test]
fn record_without_a_scope_gives_no_group() {
    let mut given = record(30, "abc", 7, parameter("abc", 4));
    given.scope = None;
    assert_eq!(given.group(), None);
}

#[test]
fn record_without_a_declaration_gives_no_group() {
    let mut given = record(30, "abc", 7, declarator("abc", 4));
    given.declaration = None;
    assert_eq!(given.group(), None);
    assert!(group_redeclarations(&vec![given]).is_empty());
}

fn occurrence(start: u32, end: u32, symbol: usize) -> VariableInfo {
    VariableInfo { span: oxc_span::Span::new(start, end), symbol_id: SymbolId::new(symbol) }
}

#[test]
fn occurrence_of_a_symbol_that_no_table_holds_is_recorded_bare() {
    let mut builder = SemanticBuilder::new("", SourceType::default());
    builder.add_redeclared_variables(occurrence(3, 4, 7));
    let semantic = builder.build2();
    assert_eq!(
        recorded_redeclarations(&semantic),
        vec![Redeclaration {
            span: Span::new(3, 4),
            symbol_name: None,
            scope: None,
            declaration: None,
        }]
    );
    let rule = NoRedeclare::new(true);
    assert!(rule.run_once(&semantic, &BuiltinGlobalSet::new()).is_empty());
}

#[test]
fn symbol_without_a_declaring_node_is_recorded_without_declaration() {
    let mut builder = SemanticBuilder::new("", SourceType::default());
    let scope_id = builder.current_scope_id;
    let symbol_id = builder.symbols.create_symbol(
        oxc_span::Span::new(0, 1),
        Atom::from("a"),
        SymbolFlags::FunctionScopedVariable,
        scope_id,
    );
    builder.add_redeclared_variables(VariableInfo { span: oxc_span::Span::new(3, 4), symbol_id });
    let semantic = builder.build2();
    assert_eq!(
        recorded_redeclarations(&semantic),
        vec![Redeclaration {
            span: Span::new(3, 4),
            symbol_name: Some("a".to_string()),
            scope: Some(0),
            declaration: None,
        }]
    );
    assert!(NoRedeclare::default().run_once(&semantic, &BuiltinGlobalSet::new()).is_empty());
}

#[test]
fn declaring_node_that_the_node_table_lacks_is_recorded_as_absent() {
    let mut builder = SemanticBuilder::new("", SourceType::default());
    let scope_id = builder.current_scope_id;
    let symbol_id = builder.symbols.create_symbol(
        oxc_span::Span::new(0, 1),
        Atom::from("a"),
        SymbolFlags::FunctionScopedVariable,
        scope_id,
    );
    builder.symbols.add_declaration(AstNodeId::new(5));
    builder.add_redeclared_variables(VariableInfo { span: oxc_span::Span::new(3, 4), symbol_id });
    let semantic = builder.build2();
    let recorded = recorded_redeclarations(&semantic);
    assert_eq!(recorded.len(), 1);
    assert_eq!(recorded[0].symbol_name, Some("a".to_string()));
    assert_eq!(recorded[0].declaration, None);
    assert!(NoRedeclare::default().run_once(&semantic, &BuiltinGlobalSet::new()).is_empty());
}
