use btls::parser::parse;
use btls::syntax::{ErrorPreamble, Expr, Preamble, Program, Statement};
use btls::walk::{ErrorRef, FilterWalk, Walk};

fn parse_no_errors(input: &str) {
    let prog = parse(input).unwrap();
    let errors: Vec<_> = prog.errors();
    assert!(errors.is_empty(), "parse failed!");
}

fn first_probe(prog: &Program) -> &btls::syntax::Probe {
    match prog.preambles.get(0) {
        Some(Preamble::Probe(probe)) => probe,
        _ => panic!("not a probe!"),
    }
}

#[test]
fn test_sanity() {
    parse_no_errors("");
    parse_no_errors("// this is a comment");
    parse_no_errors("BEGIN {}");
    parse_no_errors("END {}");
    parse_no_errors("tracepoint:sched:* {}");
    parse_no_errors("tracepoint:sched:* { $x = 1; }");
    parse_no_errors("tracepoint:sched:* { $x  = 1   ; }");
}

#[test]
fn tests_test_sanity() {
    parse_no_errors("");
    parse_no_errors("// this is a comment");
    parse_no_errors("BEGIN {}");
    parse_no_errors("END {}");
    parse_no_errors("tracepoint:sched:* {}");
    parse_no_errors("tracepoint:sched:* { $x = 1; }");
    parse_no_errors("tracepoint:sched:* { $x  = 1   ; }");
    parse_no_errors("END, BEGIN { $x  = 1   ; }");
    parse_no_errors("END, BEGIN / 1 / {}");
    parse_no_errors("BEGIN { $x = 1 + 2 - 3 * 4; }");
    parse_no_errors("BEGIN { $x = 1 + 2 - 3 * func($y, $z); }");
    parse_no_errors("BEGIN { if ($x == 1) {} }");
    parse_no_errors("BEGIN { if ($x == 1) { return; } }");
    parse_no_errors("BEGIN { while ($x < $y) { return; } }");
    parse_no_errors("BEGIN { for ($x : $y) { $var += 1; } }");
    parse_no_errors("BEGIN { @map = 1 + 2; $var = -1; $var = +2; $var2 = @map + -1; }");
    parse_no_errors("BEGIN { $var++; --$var; }");

    // should fail
    // variable outside probe
    let prog = parse("$x = 1").unwrap();
    assert!(prog.errors().len() > 0, "parsed without any errors!");
    assert!(
        matches!(
            prog.errors()[0],
            ErrorRef::Preamble(ErrorPreamble::UnknownPreamble(_))
        ),
        "unexpected error type"
    );

    // unmatched brace
    let prog = parse("BEGIN { } }").unwrap();
    assert!(prog.errors().len() > 0, "parsed without any errors!");
    assert!(
        matches!(
            prog.errors()[0],
            ErrorRef::Preamble(ErrorPreamble::UnmatchedBrace(_))
        ),
        "unexpected error type"
    );
}

#[test]
fn test_probe() {
    let input = "tracepoint:sched:* { }";
    let prog = parse(input).unwrap();
    assert_eq!(prog.preambles.len(), 1);

    let probe = first_probe(&prog);
    let ap = probe.attach_points.get(0).unwrap();
    assert_eq!(&input[ap.start..ap.end], "tracepoint:sched:*");
    assert_eq!(probe.block.statements.len(), 0);
}

#[test]
fn tests_test_probe() {
    let input = "tracepoint:sched:* {}";
    let prog = parse(input).unwrap();
    assert_eq!(prog.preambles.len(), 1);

    let probe = first_probe(&prog);
    let ap = probe.attach_points.get(0).unwrap();
    assert_eq!(&input[ap.start..ap.end], "tracepoint:sched:*");
    assert_eq!(probe.block.statements.len(), 0);
}

const STATEMENTS: &str = r#"BEGIN {
        $x = 2;
        $y = 3;
        $y += 6;
        $x -= 0;
        $str = "string";
    }"#;

#[test]
fn test_statements() {
    let prog = parse(STATEMENTS).unwrap();
    let probe = first_probe(&prog);
    assert_eq!(probe.block.statements.len(), 5);
    assert!(matches!(
        probe.block.statements.get(0),
        Some(Statement::Assignment(_))
    ));
}

#[test]
fn tests_test_statements() {
    let prog = parse(STATEMENTS).unwrap();
    let probe = first_probe(&prog);
    assert_eq!(probe.block.statements.len(), 5);
    assert!(matches!(
        probe.block.statements.get(0),
        Some(Statement::Assignment(_))
    ));
}

const CALLS: &str = r#"BEGIN {
        $x = 1;
        func();
        func(1);
        func(1, 2);
        func( 1, 2, $x );
        $z = func(69);
    }"#;

#[test]
fn test_calls() {
    let prog = parse(CALLS).unwrap();
    let probe = first_probe(&prog);
    assert_eq!(probe.block.statements.len(), 6);
    let Some(Statement::Expr(call)) = probe.block.statements.get(1) else {
        panic!("not an expression!");
    };
    assert!(matches!(call.as_ref(), Expr::Call(_)));
}

#[test]
fn tests_test_calls() {
    let prog = parse(CALLS).unwrap();
    let probe = first_probe(&prog);
    assert_eq!(probe.block.statements.len(), 6);
    let Some(Statement::Expr(call)) = probe.block.statements.get(1) else {
        panic!("not an expression!");
    };
    match call.as_ref() {
        Expr::Call(c) => assert_eq!(c.args.len(), 0),
        _ => panic!("not a call!"),
    }
}

#[test]
fn test_loops() {
    let prog = parse(
        r#"BEGIN {
            while ($x < 69) {
                $x += 1;
            }

            while ($y != $x) {}
        }"#,
    )
    .unwrap();

    let mut walk = Walk::new(prog.as_node());
    let mut loops = 0;
    while let Some(n) = walk.next() {
        if matches!(n.as_statement(), Some(Statement::Loop(..))) {
            loops += 1;
        }
    }

    assert_eq!(loops, 2);
}

#[test]
fn walk_visits_in_source_order() {
    let input = "BEGIN { $a = f(1, $b); if ($a) { $c; } }";
    let prog = parse(input).unwrap();
    let mut walk = Walk::new(prog.as_node());
    let mut leaves = Vec::new();
    while let Some(n) = walk.next() {
        if n.children().is_empty() {
            let sp = n.span();
            leaves.push(&input[sp.start..sp.end]);
        }
    }
    assert_eq!(leaves, vec!["$a", "f", "1", "$b", "$a", "$c"]);
}

#[test]
fn filter_walk_finds_nested_errors() {
    let input = "} BEGIN { if (1) { ?? } } junk";
    let prog = parse(input).unwrap();
    let mut walk = FilterWalk::new(prog.as_node());
    let mut found = Vec::new();
    while let Some(e) = walk.next() {
        found.push(e.span());
    }
    let direct: Vec<_> = prog.errors().iter().map(|e| e.span()).collect();
    assert_eq!(found, direct);
    assert_eq!(found.len(), 3);
    assert!(matches!(prog.errors()[0], ErrorRef::Preamble(ErrorPreamble::UnmatchedBrace(_))));
}

#[test]
fn assignment_outside_probe_is_one_unknown_preamble() {
    let prog = parse("$x = 1").unwrap();
    let errors = prog.errors();
    assert_eq!(errors.len(), 1);
    assert!(matches!(
        errors[0],
        ErrorRef::Preamble(ErrorPreamble::UnknownPreamble(_))
    ));
    assert_eq!(prog.preambles.len(), 1);
}

#[test]
fn stray_closing_brace_is_unmatched() {
    let prog = parse("BEGIN { } }").unwrap();
    let errors = prog.errors();
    assert_eq!(errors.len(), 1);
    assert!(matches!(
        errors[0],
        ErrorRef::Preamble(ErrorPreamble::UnmatchedBrace(_))
    ));
    assert_eq!(errors[0].span().start, 10);
    assert_eq!(errors[0].span().end, 11);
}

#[test]
fn unknown_statement_keeps_the_rest_of_the_block() {
    let input = "BEGIN { $x = = 1; $y = 2; }";
    let prog = parse(input).unwrap();
    let probe = first_probe(&prog);
    assert_eq!(probe.block.statements.len(), 2);
    let errors = prog.errors();
    assert_eq!(errors.len(), 1);
    let sp = errors[0].span();
    assert_eq!(&input[sp.start..sp.end], "$x = = 1;");
    assert!(matches!(
        probe.block.statements.get(1),
        Some(Statement::Assignment(_))
    ));
}

#[test]
fn unknown_preamble_stops_at_line_end_and_trims() {
    let input = "garbage here   \nBEGIN {}";
    let prog = parse(input).unwrap();
    assert_eq!(prog.preambles.len(), 2);
    let errors = prog.errors();
    assert_eq!(errors.len(), 1);
    let sp = errors[0].span();
    assert_eq!(&input[sp.start..sp.end], "garbage here");
}

#[test]
fn oversized_integer_is_not_a_literal() {
    let prog = parse("BEGIN { $x = 99999999999999999999; }").unwrap();
    assert_eq!(prog.errors().len(), 1);
    let prog = parse("BEGIN { $x = 9223372036854775807; }").unwrap();
    assert_eq!(prog.errors().len(), 0);
    let probe = first_probe(&prog);
    let Some(Statement::Assignment(a)) = probe.block.statements.get(0) else {
        panic!("not an assignment!");
    };
    match a.rvalue.as_ref() {
        Expr::Integer(n) => assert_eq!(n.value, i64::MAX),
        _ => panic!("not an integer!"),
    }
}

#[test]
fn precedence_and_spans_of_operators() {
    // `*` binds tighter than `+`, and `+` tighter than `==`.
    let input = "BEGIN { 1 + 2 * 3 == 7; }";
    let prog = parse(input).unwrap();
    let probe = first_probe(&prog);
    let Some(Statement::Expr(e)) = probe.block.statements.get(0) else {
        panic!("not an expression!");
    };
    let Expr::BinaryExpr(eq) = e.as_ref() else {
        panic!("not a binary expression!");
    };
    assert_eq!((eq.span.start, eq.span.end), (8, 22));
    let Expr::BinaryExpr(sum) = eq.lhs.as_ref() else {
        panic!("not a sum!");
    };
    assert_eq!((sum.span.start, sum.span.end), (8, 17));
    assert!(matches!(sum.lhs.as_ref(), Expr::Integer(_)));
    let Expr::BinaryExpr(product) = sum.rhs.as_ref() else {
        panic!("not a product!");
    };
    assert_eq!(&input[product.span.start..product.span.end], "2 * 3");
    // left associativity
    let input = "BEGIN { 8 - 4 - 2; }";
    let prog = parse(input).unwrap();
    let probe = first_probe(&prog);
    let Some(Statement::Expr(e)) = probe.block.statements.get(0) else {
        panic!("not an expression!");
    };
    let Expr::BinaryExpr(outer) = e.as_ref() else {
        panic!("not a binary expression!");
    };
    assert!(matches!(outer.lhs.as_ref(), Expr::BinaryExpr(_)));
    assert!(matches!(outer.rhs.as_ref(), Expr::Integer(_)));
}

#[test]
fn prefix_and_postfix_spans() {
    let input = "BEGIN { --$v++; -$w; }";
    let prog = parse(input).unwrap();
    assert_eq!(prog.errors().len(), 0);
    let probe = first_probe(&prog);
    let Some(Statement::Expr(e)) = probe.block.statements.get(0) else {
        panic!("not an expression!");
    };
    let Expr::UnaryExpr(pre) = e.as_ref() else {
        panic!("not a prefix operation!");
    };
    assert_eq!(&input[pre.span.start..pre.span.end], "--$v++");
    let Expr::UnaryExpr(post) = pre.expr.as_ref() else {
        panic!("not a postfix operation!");
    };
    assert_eq!(&input[post.span.start..post.span.end], "$v++");
    let Expr::Identifier(v) = post.expr.as_ref() else {
        panic!("not an identifier!");
    };
    assert_eq!(&input[v.span.start..v.span.end], "$v");
}

#[test]
fn leaf_tokens_are_source_text() {
    let input = "BEGIN / pid / { @m = printf(\"a;b\", 42, $v); }";
    let prog = parse(input).unwrap();
    assert_eq!(prog.errors().len(), 0);
    let probe = first_probe(&prog);
    let Some(Expr::Identifier(p)) = probe.condition.as_ref() else {
        panic!("no predicate!");
    };
    assert_eq!(&input[p.span.start..p.span.end], "pid");
    let Some(Statement::Assignment(a)) = probe.block.statements.get(0) else {
        panic!("not an assignment!");
    };
    let Expr::Call(c) = a.rvalue.as_ref() else {
        panic!("not a call!");
    };
    assert_eq!(&input[c.func.span.start..c.func.span.end], "printf");
    let texts: Vec<&str> = (0..c.args.len())
        .map(|i| {
            let sp = c.args.get(i).unwrap().span();
            &input[sp.start..sp.end]
        })
        .collect();
    assert_eq!(texts, vec!["\"a;b\"", "42", "$v"]);
}

#[test]
fn program_span_covers_the_input() {
    let input = "BEGIN {}\n";
    let prog = parse(input).unwrap();
    assert_eq!((prog.span.start, prog.span.end), (0, input.len()));
}

#[test]
fn comments_are_trivia() {
    parse_no_errors("BEGIN { /* note; } */ $x = 1; // tail\n }\n/* unterminated");
    let prog = parse("/* a */ BEGIN /* b */ { }").unwrap();
    assert_eq!(prog.preambles.len(), 1);
}
