use runtime_checker::data::{Feature, RuntimeDb};
use runtime_checker::syntax::{AssignmentOperator, ExpressionKind, LogicalOperator, VariableDeclarationKind};
use runtime_checker::version::RuntimeVersion;
use runtime_checker::visitor::{expression_chain, require_module, AstVisitor, BindingShape, ExprShape, ImportSpecifier};

fn db() -> RuntimeDb {
    let names = [
        ("Temporal", 26),
        ("fs.cp", 16),
        ("fsPromises.cp", 16),
        ("syntax.operators.nullish_coalescing_assignment", 15),
        ("syntax.operators.logical_or_assignment", 15),
        ("syntax.operators.logical_and_assignment", 15),
        ("syntax.operators.optional_chaining", 14),
        ("syntax.operators.nullish_coalescing", 14),
        ("module.esm", 13),
        ("typescript.native", 22),
        ("module.commonjs", 0),
        ("module.iife", 0),
        ("Iterator.from", 22),
        ("Iterator.map", 22),
        ("Temporal.Duration.from", 26),
        ("Temporal.Duration.add", 26),
        ("sqlite.DatabaseSync", 22),
        ("sqlite.DatabaseSync.prepare", 22),
        ("sqlite.StatementSync.run", 22),
        ("syntax.statements.let", 6),
        ("toSorted", 20),
    ];
    let features: Vec<Feature> = names
        .iter()
        .enumerate()
        .map(|(id, (name, major))| Feature {
            id,
            name: name.to_string(),
            version: RuntimeVersion { major: *major, minor: 0, patch: 0 },
        })
        .collect();
    let entry = |key: &str, id: usize| (key.to_string(), id);
    RuntimeDb {
        name: "node".to_string(),
        features,
        globals: vec![entry("Temporal", 0)],
        member_chains: vec![
            entry("fs.cp", 1),
            entry("fsPromises.cp", 2),
            entry("Iterator.from", 12),
            entry("Iterator.map", 13),
            entry("Temporal.Duration.from", 14),
            entry("Temporal.Duration.add", 15),
            entry("sqlite.DatabaseSync", 16),
            entry("sqlite.DatabaseSync.prepare", 17),
            entry("sqlite.StatementSync.run", 18),
        ],
        properties: vec![entry("toSorted", 20)],
        syntax: vec![
            entry("operators.nullish_coalescing_assignment", 3),
            entry("operators.logical_or_assignment", 4),
            entry("operators.logical_and_assignment", 5),
            entry("operators.optional_chaining", 6),
            entry("operators.nullish_coalescing", 7),
            entry("statements.let", 19),
        ],
        support: vec![
            entry("module.esm", 8),
            entry("typescript.native", 9),
            entry("module.commonjs", 10),
            entry("module.iife", 11),
        ],
        fast_patterns: vec![],
    }
}

fn ident(name: &str) -> ExprShape {
    ExprShape::Identifier(name.to_string())
}

fn member(object: ExprShape, property: &str) -> ExprShape {
    ExprShape::StaticMember(Box::new(object), property.to_string())
}

fn call(callee: ExprShape, argument: Option<&str>) -> ExprShape {
    ExprShape::Call(Box::new(callee), argument.map(str::to_string))
}

fn names(visitor: AstVisitor) -> Vec<String> {
    visitor.into_detections().into_iter().map(|d| d.feature).collect()
}

#[test]
fn global_temporal_counts_once_and_not_when_shadowed() {
    let runtime = db();
    let text = "Temporal.Now.instant();\nfunction shadow() { const Temporal = local;\nTemporal.Now.instant();\n}";
    let mut visitor = AstVisitor::new(&runtime, "date.ts", text);
    visitor.visit_identifier_reference("Temporal", true, 0);
    visitor.enter_scope();
    visitor.visit_binding_identifier("Temporal");
    visitor.visit_identifier_reference("Temporal", false, 68);
    visitor.exit_scope();
    let found = names(visitor);
    assert_eq!(found.iter().filter(|f| f.as_str() == "Temporal").count(), 1);
}

#[test]
fn imported_fs_members_resolve_to_module_chains() {
    let runtime = db();
    let mut visitor = AstVisitor::new(&runtime, "fs.ts", "x");
    visitor.visit_import_declaration("node:fs", &Some(vec![ImportSpecifier::Namespace("fs".to_string())]), 0);
    visitor.visit_import_declaration(
        "node:fs/promises",
        &Some(vec![ImportSpecifier::Named { imported: "cp".to_string(), local: "cp".to_string() }]),
        31,
    );
    visitor.visit_static_member_expression(&ident("fs"), "cp", 71, 74);
    visitor.visit_identifier_reference("cp", false, 97);
    let found = names(visitor);
    assert!(found.iter().any(|f| f == "fs.cp"));
    assert!(found.iter().any(|f| f == "fsPromises.cp"));
    assert!(found.iter().any(|f| f == "module.esm"));
}

#[test]
fn sqlite_statements_are_canonicalized_through_bindings() {
    let runtime = db();
    let mut visitor = AstVisitor::new(&runtime, "sqlite.ts", "x");
    visitor.visit_import_declaration(
        "node:sqlite",
        &Some(vec![ImportSpecifier::Named { imported: "DatabaseSync".to_string(), local: "DatabaseSync".to_string() }]),
        0,
    );
    let construct = ExprShape::New(Box::new(ident("DatabaseSync")));
    visitor.visit_variable_declarator(&BindingShape::Identifier("db".to_string()), &Some(construct), 55);
    visitor.visit_identifier_reference("DatabaseSync", false, 59);
    let prepare = call(member(ident("db"), "prepare"), Some("select 1"));
    visitor.visit_variable_declarator(&BindingShape::Identifier("statement".to_string()), &Some(prepare), 106);
    visitor.visit_static_member_expression(&ident("db"), "prepare", 106, 109);
    visitor.visit_static_member_expression(&ident("statement"), "run", 130, 140);
    let found = names(visitor);
    assert!(found.iter().any(|f| f == "sqlite.DatabaseSync"));
    assert!(found.iter().any(|f| f == "sqlite.DatabaseSync.prepare"));
    assert!(found.iter().any(|f| f == "sqlite.StatementSync.run"));
    assert!(!found.iter().any(|f| f == "statement.run"));
}

#[test]
fn unresolved_statement_aliases_are_not_counted() {
    let runtime = db();
    let mut visitor = AstVisitor::new(&runtime, "local.ts", "x");
    visitor.visit_variable_declarator(&BindingShape::Identifier("statement".to_string()), &Some(ExprShape::Other), 18);
    visitor.visit_static_member_expression(&ident("statement"), "run", 48, 58);
    let found = names(visitor);
    assert!(!found.iter().any(|f| f.starts_with("sqlite.StatementSync")));
    assert!(!found.iter().any(|f| f == "statement.run"));
}

#[test]
fn logical_assignment_and_optional_chaining_syntax() {
    let runtime = db();
    let text = "let value;\nvalue ??= 1;\nvalue ||= 2;\nvalue &&= 3;\n";
    let mut visitor = AstVisitor::new(&runtime, "syntax.ts", text);
    visitor.visit_variable_declaration(VariableDeclarationKind::Let, 0);
    visitor.visit_assignment_expression(AssignmentOperator::LogicalNullish, 11);
    visitor.visit_assignment_expression(AssignmentOperator::LogicalOr, 24);
    visitor.visit_assignment_expression(AssignmentOperator::LogicalAnd, 37);
    visitor.visit_chain_expression(50);
    visitor.visit_logical_expression(LogicalOperator::Coalesce, 50);
    visitor.visit_expression(ExpressionKind::LogicalExpression(LogicalOperator::Coalesce), 50);
    visitor.visit_expression(ExpressionKind::Other, 50);
    let detections = visitor.into_detections();
    let found: Vec<&str> = detections.iter().map(|d| d.feature.as_str()).collect();
    for expected in [
        "syntax.statements.let",
        "syntax.operators.nullish_coalescing_assignment",
        "syntax.operators.logical_or_assignment",
        "syntax.operators.logical_and_assignment",
        "syntax.operators.optional_chaining",
        "syntax.operators.nullish_coalescing",
    ] {
        assert!(found.contains(&expected), "missing {expected}");
    }
    let or_assign = detections.iter().find(|d| d.feature == "syntax.operators.logical_or_assignment").unwrap();
    assert_eq!((or_assign.line, or_assign.column), (3, 1));
}

#[test]
fn module_format_and_native_typescript_support() {
    let runtime = db();
    let mut esm = AstVisitor::new(&runtime, "module.mts", "x");
    esm.emit_file_support();
    let esm = names(esm);
    assert!(esm.iter().any(|f| f == "module.esm"));
    assert!(esm.iter().any(|f| f == "typescript.native"));

    let mut cjs = AstVisitor::new(&runtime, "module.cjs", "x");
    cjs.emit_file_support();
    let require = call(ident("require"), Some("./value.js"));
    cjs.visit_variable_declarator(&BindingShape::Identifier("value".to_string()), &Some(require), 14);
    cjs.visit_call_expression(&ident("require"), 14);
    assert!(names(cjs).iter().any(|f| f == "module.commonjs"));

    let mut iife = AstVisitor::new(&runtime, "bundle.js", "x");
    iife.emit_file_support();
    iife.visit_call_expression(&ExprShape::Parenthesized(Box::new(ExprShape::Function)), 0);
    let iife = names(iife);
    assert!(iife.iter().any(|f| f == "module.iife"));
    assert!(!iife.iter().any(|f| f == "typescript.native"));
}

#[test]
fn ordinary_methods_are_not_iterator_helpers() {
    let runtime = db();
    let mut visitor = AstVisitor::new(&runtime, "arrays.ts", "x");
    let array_map = call(member(ExprShape::Other, "map"), None);
    visitor.visit_static_member_expression(&ExprShape::Other, "map", 0, 10);
    visitor.visit_static_member_expression(&array_map, "filter", 0, 31);
    assert!(!names(visitor).iter().any(|f| f.starts_with("Iterator.")));
}

#[test]
fn explicit_iterator_and_temporal_chains_count() {
    let runtime = db();
    let mut visitor = AstVisitor::new(&runtime, "iterator.ts", "x");
    let from = member(ident("Iterator"), "from");
    visitor.visit_static_member_expression(&ident("Iterator"), "from", 0, 9);
    visitor.visit_static_member_expression(&call(from, None), "map", 0, 26);
    let found = names(visitor);
    assert!(found.iter().any(|f| f == "Iterator.from"));
    assert!(found.iter().any(|f| f == "Iterator.map"));

    let mut visitor = AstVisitor::new(&runtime, "temporal.ts", "x");
    let duration_from = member(member(ident("Temporal"), "Duration"), "from");
    visitor.visit_static_member_expression(&member(ident("Temporal"), "Duration"), "from", 0, 18);
    visitor.visit_static_member_expression(&call(duration_from, None), "add", 0, 40);
    let found = names(visitor);
    assert!(found.iter().any(|f| f == "Temporal.Duration.from"));
    assert!(found.iter().any(|f| f == "Temporal.Duration.add"));
}

#[test]
fn chains_and_requires_read_from_shapes() {
    let chain = expression_chain(&member(ExprShape::TypeWrapped(Box::new(ident("fs"))), "promises")).unwrap();
    assert_eq!(chain, vec!["fs".to_string(), "promises".to_string()]);
    assert!(expression_chain(&call(ident("f"), None)).is_none());
    assert_eq!(require_module(&call(ident("require"), Some("node:fs"))), Some("fs".to_string()));
    assert_eq!(require_module(&call(ident("load"), Some("node:fs"))), None);
}

#[test]
fn properties_count_at_their_own_position() {
    let runtime = db();
    let mut visitor = AstVisitor::new(&runtime, "a.ts", "const s = list\n  .toSorted();\n");
    visitor.visit_static_member_expression(&ident("list"), "toSorted", 10, 18);
    let detections = visitor.into_detections();
    assert_eq!(detections.len(), 1);
    assert_eq!(detections[0].feature, "toSorted");
    assert_eq!((detections[0].line, detections[0].column), (2, 4));
}
