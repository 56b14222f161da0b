use btls::analyzer::SemanticAnalyzer;
use btls::builtins::BuiltinSymbols;
use btls::completion::{completion_entries, CompletionKind};
use btls::config::Config;
use btls::diagnostics::{diagnostics, to_position};
use btls::storage::Storage;
use btls::syntax::{ErrorStatement, Preamble, Statement};
use btls::walk::ErrorRef;

const SANITY: &str = r#"
        BEGIN {
            $var = 1;
            $undefined;
            print($undefined);
            $var2 = count();
            $var3 = undefinedfunc();
        }"#;

#[test]
fn test_sanity_analysis() {
    let mut storage = Storage::new();
    storage.load("tmp_path", SANITY);
    let text = storage.get("tmp_path").unwrap();

    let mut analyzer = SemanticAnalyzer::new();
    let analyzed = analyzer.analyze(&text).unwrap();
    assert_eq!(analyzed.variables.len(), 3);

    let errors = analyzed.ast.errors();
    assert_eq!(errors.len(), 3);
    assert!(matches!(
        errors[1],
        ErrorRef::Statement(ErrorStatement::UndefinedIdent(..))
    ));
    assert!(matches!(
        errors[2],
        ErrorRef::Statement(ErrorStatement::UndefinedFunc(..))
    ));
}

#[test]
fn declared_names_in_order() {
    let mut analyzer = SemanticAnalyzer::new();
    let analyzed = analyzer.analyze("BEGIN { $x = 1; $y = $x; }").unwrap();
    assert_eq!(analyzed.ast.errors().len(), 0);
    assert_eq!(analyzed.variables, vec!["$x".to_string(), "$y".to_string()]);
    assert_eq!(analyzer.variables, analyzed.variables);
    assert_eq!(analyzer.content, "BEGIN { $x = 1; $y = $x; }");
}

#[test]
fn undefined_names_and_functions() {
    let mut analyzer = SemanticAnalyzer::new();
    let analyzed = analyzer.analyze(SANITY).unwrap();
    assert_eq!(analyzed.variables, vec!["$var", "$var2", "$var3"]);
    let errors = analyzed.ast.errors();
    let idents = errors
        .iter()
        .filter(|e| matches!(e, ErrorRef::Statement(ErrorStatement::UndefinedIdent(_))))
        .count();
    let funcs = errors
        .iter()
        .filter(|e| matches!(e, ErrorRef::Statement(ErrorStatement::UndefinedFunc(_))))
        .count();
    // `$undefined` as a statement and as the argument of `print`
    assert_eq!(idents, 2);
    assert_eq!(funcs, 1);
    assert_eq!(errors[2].diagnosis(SANITY), "Undefined function \"undefinedfunc\"");
    assert_eq!(errors[0].diagnosis(SANITY), "Undefined Identifier \"undefined\"");
}

#[test]
fn repeated_analysis_gives_the_same_result() {
    let text = "BEGIN { $a = 1; $b; foo($a); } $junk";
    let mut analyzer = SemanticAnalyzer::new();
    let first = analyzer.analyze(text).unwrap();
    let second = analyzer.analyze(text).unwrap();
    assert_eq!(first.variables, second.variables);
    let a: Vec<String> = first.ast.errors().iter().map(|e| e.diagnosis(text)).collect();
    let b: Vec<String> = second.ast.errors().iter().map(|e| e.diagnosis(text)).collect();
    assert_eq!(a, b);
    assert_eq!(a.len(), 3);
    let sa: Vec<(usize, usize)> = first.ast.errors().iter().map(|e| (e.span().start, e.span().end)).collect();
    let sb: Vec<(usize, usize)> = second.ast.errors().iter().map(|e| (e.span().start, e.span().end)).collect();
    assert_eq!(sa, sb);
}

#[test]
fn reference_before_assignment_is_flagged() {
    let text = "BEGIN { $a; $a = 1; $a; }";
    let mut analyzer = SemanticAnalyzer::new();
    let analyzed = analyzer.analyze(text).unwrap();
    let errors = analyzed.ast.errors();
    assert_eq!(errors.len(), 1);
    assert_eq!(errors[0].span().start, 9);
    assert_eq!(analyzed.variables, vec!["$a"]);
}

#[test]
fn declarations_in_nested_blocks_are_global() {
    let text = "BEGIN { if (1) { $q = 1; } $q; } END { $q; }";
    let mut analyzer = SemanticAnalyzer::new();
    let analyzed = analyzer.analyze(text).unwrap();
    assert_eq!(analyzed.ast.errors().len(), 0);
}

#[test]
fn errors_go_to_their_own_block() {
    let text = "BEGIN { if (1) { $q; } $r; } END { $s; }";
    let mut analyzer = SemanticAnalyzer::new();
    let analyzed = analyzer.analyze(text).unwrap();
    let Some(Preamble::Probe(begin)) = analyzed.ast.preambles.get(0) else {
        panic!("not a probe!");
    };
    // the `if`, `$r`, and the error for `$r`
    assert_eq!(begin.block.statements.len(), 3);
    let Some(Statement::IfCond(i)) = begin.block.statements.get(0) else {
        panic!("not an if!");
    };
    let inner = i.block.errors();
    assert_eq!(inner.len(), 1);
    assert_eq!(inner[0].diagnosis(text), "Undefined Identifier \"q\"");
    let Some(Preamble::Probe(end)) = analyzed.ast.preambles.get(1) else {
        panic!("not a probe!");
    };
    let errs = end.block.errors();
    assert_eq!(errs.len(), 1);
    assert_eq!(errs[0].diagnosis(text), "Undefined Identifier \"s\"");
}

#[test]
fn builtins_are_known() {
    let text = "kprobe:f / pid == 1 / { @c = count(); printf(\"%d\", tid); }";
    let mut analyzer = SemanticAnalyzer::new();
    let analyzed = analyzer.analyze(text).unwrap();
    assert_eq!(analyzed.ast.errors().len(), 0);
    let text = "BEGIN / nosuch / { }";
    let analyzed = analyzer.analyze(text).unwrap();
    assert_eq!(analyzed.ast.errors().len(), 1);
}

#[test]
fn insert_adds_a_name() {
    let mut analyzer = SemanticAnalyzer::new();
    analyzer.insert("$z".to_string());
    assert_eq!(analyzer.variables, vec!["$z"]);
}

#[test]
fn diagnostics_carry_positions_and_messages() {
    let text = "BEGIN {\n  $a;\n  ???\n}\n}";
    let mut analyzer = SemanticAnalyzer::new();
    let analyzed = analyzer.analyze(text).unwrap();
    let diags = diagnostics(text, &analyzed.ast);
    let messages: Vec<&str> = diags.iter().map(|d| d.message.as_str()).collect();
    assert_eq!(
        messages,
        vec!["Unknown statement \"???\"", "Undefined Identifier \"a\"", "Unmatched brace"]
    );
    let (start, end) = diags[1].range.unwrap();
    assert_eq!((start.line, start.character), (1, 3));
    assert_eq!((end.line, end.character), (1, 4));
    let (start, _) = diags[2].range.unwrap();
    assert_eq!((start.line, start.character), (4, 0));
}

#[test]
fn positions_count_lines_and_characters() {
    let text = "a\r\nb\nc\u{e9}d";
    let p = to_position(text, 3).unwrap();
    assert_eq!((p.line, p.character), (1, 0));
    let p = to_position(text, 5).unwrap();
    assert_eq!((p.line, p.character), (2, 0));
    // é is two bytes and one character
    let p = to_position(text, 8).unwrap();
    assert_eq!((p.line, p.character), (2, 2));
    assert!(to_position(text, 7).is_none());
    assert!(to_position(text, 100).is_none());
}

#[test]
fn completion_lists_variables_then_builtins() {
    let builtins = BuiltinSymbols::new();
    let vars = vec!["$x".to_string()];
    let entries = completion_entries(&vars, &builtins);
    assert_eq!(entries.len(), 1 + builtins.keywords.len() + builtins.functions.len());
    assert_eq!(entries[0].label, "$x");
    assert_eq!(entries[0].kind, CompletionKind::Variable);
    assert!(entries[0].detail.is_none());
    assert_eq!(entries[1].label, builtins.keywords[0].name);
    assert_eq!(entries[1].kind, CompletionKind::Keyword);
    assert_eq!(entries[1].detail.as_deref(), Some(builtins.keywords[0].detail));
    let f = &entries[1 + builtins.keywords.len()];
    assert_eq!(f.kind, CompletionKind::Function);
    assert_eq!(f.label, builtins.functions[0].name);
}

#[test]
fn storage_replaces_documents() {
    let mut storage = Storage::new();
    assert!(storage.get("a").is_none());
    storage.load("a", "one");
    storage.load("b", "two");
    storage.load("a", "three");
    assert_eq!(storage.get("a").as_deref(), Some("three"));
    assert_eq!(storage.get("b").as_deref(), Some("two"));
    assert!(storage.get("c").is_none());
}

#[test]
fn config_defaults_to_no_diagnostics() {
    let c = Config::default();
    assert!(!c.diagnostics);
}


#[test]
fn names_are_compared_without_sigils() {
    let mut analyzer = SemanticAnalyzer::new();
    // `$pid` is the builtin `pid`; a bare `x` is the variable `$x`; `$m` is the map `@m`.
    let text = "BEGIN { $x = 1; @m = 2; $pid; x; $m; $y; }";
    let analyzed = analyzer.analyze(text).unwrap();
    let errors = analyzed.ast.errors();
    assert_eq!(errors.len(), 1);
    assert_eq!(errors[0].diagnosis(text), "Undefined Identifier \"y\"");
    assert_eq!(analyzed.variables, vec!["$x", "@m"]);
}

#[test]
fn builtin_functions_are_accepted() {
    let builtins = BuiltinSymbols::new();
    let names: Vec<&str> = builtins.functions.iter().map(|b| b.name).collect();
    assert!(names.contains(&"count") && names.contains(&"print"));
    for k in builtins.keywords.iter() {
        assert!(!names.contains(&k.name));
    }
}

#[test]
fn later_probes_do_not_declare_earlier_references() {
    let text = "BEGIN { $a; } END { $a = 1; $a; }";
    let mut analyzer = SemanticAnalyzer::new();
    let analyzed = analyzer.analyze(text).unwrap();
    let errors = analyzed.ast.errors();
    assert_eq!(errors.len(), 1);
    assert_eq!(errors[0].diagnosis(text), "Undefined Identifier \"a\"");
    assert_eq!(errors[0].span().start, 9);
}
