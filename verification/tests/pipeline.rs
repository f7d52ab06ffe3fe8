use bpmncode::diagnostics::context_validator::ContextValidator;
use bpmncode::diagnostics::suggestions::{
    detect_keyword_typo, is_likely_keyword_typo, similarity_ppm_ex, suggest_identifiers,
    suggest_keywords, suggest_similar,
};
use bpmncode::diagnostics::DiagnosticError;
use bpmncode::lexer::{Lexer, TokenKind};
use bpmncode::parser::ast::{AstDocument, AttributeValue, ProcessElement};
use bpmncode::parser::validator::validate_syntax;
use bpmncode::parser::{parse_tokens, Parser};

fn parse_input(input: &str) -> AstDocument {
    let lexer = Lexer::new(input, "test.bpmn");
    let tokens = lexer.tokenize();
    parse_tokens(tokens)
}

#[test]
fn tokenize_is_total_and_ends_with_eof() {
    let inputs = vec![
        "",
        "process P { start end }",
        "\u{0}\u{1}\u{2} %%% ??? \\ \" unterminated",
        "----> ..> .. . :: : = => { } [ ] ( ) , @ ?",
        "/* unterminated comment",
        "// comment without newline",
        "\r\n\r\rmixed\nnewlines\r\n",
        "1.2.3 5m 10xyz 7.",
    ];

    for input in inputs {
        let lexer = Lexer::new(input, "any.bpmn");
        let tokens = lexer.tokenize();
        assert!(!tokens.is_empty(), "input: {input:?}");
        let last = tokens.last().unwrap();
        assert_eq!(last.kind, TokenKind::Eof, "input: {input:?}");
        assert_eq!(last.span.start, input.len(), "input: {input:?}");
        assert_eq!(last.span.end, input.len(), "input: {input:?}");
    }
}

#[test]
fn tokenize_and_parse_are_deterministic() {
    let input = r#"
        process Orders @version "1.0" {
            start
            task Validate (retries=3)
            xor Ok? {
                [yes] -> Ship
                => Reject
            }
            task Ship
            task Reject
            Ship -> end
            Reject -> end
            end
        }
    "#;

    let first_tokens = Lexer::new(input, "same.bpmn").tokenize();
    let second_tokens = Lexer::new(input, "same.bpmn").tokenize();
    assert_eq!(first_tokens, second_tokens);

    let first_ast = parse_tokens(first_tokens);
    let second_ast = parse_tokens(second_tokens);
    assert_eq!(first_ast, second_ast);
}

#[test]
fn recovery_terminates_on_garbage() {
    let input = "process P { @@@ ((( ]]] task xor and %% -> => ..> } process Q { start end }";
    let ast = parse_input(input);
    assert_eq!(ast.processes.len(), 2);
    assert!(!ast.errors.is_empty());

    let garbage = "%$# ??? process { { { [ [ xor and task end } } ) ) process";
    let ast2 = parse_input(garbage);
    assert!(!ast2.errors.is_empty() || ast2.processes.is_empty());
}

#[test]
fn similarity_exact_values() {
    assert_eq!(similarity_ppm_ex("", ""), 1_000_000);
    assert_eq!(similarity_ppm_ex("", "process"), 0);
    assert_eq!(similarity_ppm_ex("process", ""), 0);
    assert_eq!(similarity_ppm_ex("task", "task"), 1_000_000);
    assert_eq!(similarity_ppm_ex("proces", "process"), 971_428);
    assert_eq!(similarity_ppm_ex("xyz", "process"), 0);
}

#[test]
fn similarity_agrees_with_reference_metric() {
    let pairs = [
        ("proces", "process"),
        ("star", "start"),
        ("task", "xor"),
        ("subprocess", "process"),
        ("", ""),
        ("", "x"),
        ("a", "b"),
        ("cheeseburger", "cheese fries"),
        ("dwayne", "duane"),
        ("martha", "marhta"),
    ];
    for (a, b) in pairs {
        let ours = similarity_ppm_ex(a, b) as f64 / 1_000_000.0;
        let reference = strsim::jaro_winkler(a, b);
        assert!(
            (ours - reference).abs() < 1e-5,
            "{a:?} vs {b:?}: {ours} here, {reference} from the reference"
        );
    }
}

#[test]
fn suggestion_bounds_hold() {
    let candidates = vec!["process", "start", "end", "zzzzz"];
    let suggestions = suggest_similar("proces", &candidates, 3);
    assert!(suggestions.contains(&"process".to_string()));
    for s in &suggestions {
        assert!(similarity_ppm_ex("proces", s) > 600_000);
    }
    assert!(!suggestions.contains(&"zzzzz".to_string()));

    assert_eq!(detect_keyword_typo("proces"), Some("process".to_string()));
    assert_eq!(detect_keyword_typo("qqqqq"), None);

    assert!(is_likely_keyword_typo("proces"));
    assert!(!is_likely_keyword_typo("zzzzzzzz"));
}

#[test]
fn suggestions_are_sorted_and_limited() {
    let candidates = vec!["starter", "start", "startle"];
    let suggestions = suggest_similar("start", &candidates, 2);
    assert_eq!(suggestions.len(), 2);
    assert_eq!(suggestions[0], "start");

    let keyword_suggestions = suggest_keywords("star");
    assert!(keyword_suggestions.len() <= 3);
    assert!(keyword_suggestions.contains(&"start".to_string()));

    let identifiers = vec!["ShipOrder".to_string(), "BillOrder".to_string()];
    let id_suggestions = suggest_identifiers("ShipOrdr", &identifiers);
    assert_eq!(id_suggestions[0], "ShipOrder");
}

#[test]
fn empty_input_gives_empty_document() {
    let lexer = Lexer::new("", "empty.bpmn");
    let tokens = lexer.tokenize();
    assert_eq!(tokens.len(), 1);
    assert_eq!(tokens[0].kind, TokenKind::Eof);

    let ast = parse_tokens(tokens);
    assert_eq!(ast.imports.len(), 0);
    assert_eq!(ast.processes.len(), 0);
    assert_eq!(ast.errors.len(), 0);
}

#[test]
fn simple_process_has_three_elements() {
    let ast = parse_input("process P { start task T end }");
    assert_eq!(ast.errors.len(), 0, "errors: {:?}", ast.errors);
    assert_eq!(ast.processes.len(), 1);

    let process = &ast.processes[0];
    assert_eq!(process.name, "P");
    assert_eq!(process.elements.len(), 3);
    assert!(matches!(
        process.elements[0],
        ProcessElement::StartEvent { .. }
    ));
    match &process.elements[1] {
        ProcessElement::Task { id, task_type, .. } => {
            assert_eq!(id, "T");
            assert_eq!(*task_type, bpmncode::parser::ast::TaskType::Generic);
        }
        other => panic!("Expected a generic task, got {other:?}"),
    }
    assert!(matches!(
        process.elements[2],
        ProcessElement::EndEvent { .. }
    ));
}

#[test]
fn duplicate_task_reports_one_duplicate_id() {
    let ast = parse_input("process P { task T task T end }");
    let result = validate_syntax(&ast);
    assert!(result.is_err());

    let errors = result.unwrap_err();
    let duplicates: Vec<_> = errors
        .iter()
        .filter(|e| e.message.contains("Duplicate node id"))
        .collect();
    assert_eq!(duplicates.len(), 1);
    assert!(duplicates[0].message.contains("'T'"));
}

#[test]
fn exclusive_gateway_with_default_branch() {
    let ast = parse_input(
        "process P { start xor G? { [a] -> X [b] -> Y => Z } task X task Y task Z end }",
    );
    assert_eq!(ast.errors.len(), 0, "errors: {:?}", ast.errors);

    let process = &ast.processes[0];
    let gateway = process
        .elements
        .iter()
        .find(|e| matches!(e, ProcessElement::Gateway { .. }))
        .expect("Should have gateway");

    if let ProcessElement::Gateway {
        id,
        gateway_type,
        branches,
        ..
    } = gateway
    {
        assert_eq!(id.as_ref().unwrap(), "G");
        assert_eq!(*gateway_type, bpmncode::parser::ast::GatewayType::Exclusive);
        assert_eq!(branches.len(), 3);
        assert!(branches[2].is_default);
        assert!(branches[2].condition.is_none());
        assert_eq!(branches[2].target, "Z");
    } else {
        panic!("Expected Gateway");
    }
}

#[test]
fn misspelled_keyword_gets_a_suggestion() {
    let input = "proces P { start end }";
    let lexer = Lexer::new(input, "typo.bpmn");
    let tokens = lexer.tokenize();

    let mut validator = ContextValidator::new(input.to_string());
    let diagnostics = validator.validate_tokens(&tokens);

    let typo = diagnostics
        .iter()
        .find(|d| matches!(d, DiagnosticError::UnexpectedToken { .. }))
        .expect("Should flag the misspelled keyword");

    if let DiagnosticError::UnexpectedToken {
        found, suggestions, ..
    } = typo
    {
        assert_eq!(found, "proces");
        assert!(suggestions.contains(&"process".to_string()));
    }
}

#[test]
fn duration_and_number_attributes() {
    let ast = parse_input("process P { task Foo (timeout=30s retries=3) end }");
    assert_eq!(ast.errors.len(), 0, "errors: {:?}", ast.errors);

    let process = &ast.processes[0];
    if let ProcessElement::Task { attributes, .. } = &process.elements[0] {
        match attributes.get("timeout") {
            Some(AttributeValue::Duration(d)) => assert_eq!(d, "30s"),
            other => panic!("Expected a duration, got {other:?}"),
        }
        match attributes.get("retries") {
            Some(AttributeValue::Number(n)) => {
                assert_eq!(n, "3");
                assert_eq!(n.parse::<f64>().unwrap(), 3.0);
            }
            other => panic!("Expected a number, got {other:?}"),
        }
    } else {
        panic!("Expected Task");
    }
}

#[test]
fn invalid_attribute_value_is_reported() {
    let input = "process P @version 30q { start end }";
    let lexer = Lexer::new(input, "bad.bpmn");
    let tokens = lexer.tokenize();
    let mut parser = Parser::new(tokens);
    let ast = parser.parse();

    assert!(
        ast.errors
            .iter()
            .any(|e| e.message.contains("Invalid attribute value '30q'")),
        "errors: {:?}",
        ast.errors
    );
}

#[test]
fn unknown_token_is_flagged() {
    let input = "task T $ end";
    let lexer = Lexer::new(input, "unknown.bpmn");
    let tokens = lexer.tokenize();

    let mut validator = ContextValidator::new(input.to_string());
    let diagnostics = validator.validate_tokens(&tokens);

    assert!(diagnostics.iter().any(|d| {
        matches!(d, DiagnosticError::SyntaxError { message, .. } if message.contains("Unknown token '$'"))
    }));
}

#[test]
fn operator_fragments_are_not_flagged() {
    let input = "a < b > c = d ! e & f | g";
    let lexer = Lexer::new(input, "fragments.bpmn");
    let tokens = lexer.tokenize();

    let mut validator = ContextValidator::new(input.to_string());
    let diagnostics = validator.validate_tokens(&tokens);

    assert!(!diagnostics.iter().any(|d| {
        matches!(d, DiagnosticError::SyntaxError { message, .. } if message.contains("Unknown token"))
    }));
}

#[test]
fn broken_arrow_suggests_sequence_flow() {
    let input = "A - B";
    let lexer = Lexer::new(input, "arrow.bpmn");
    let tokens = lexer.tokenize();

    let mut validator = ContextValidator::new(input.to_string());
    let diagnostics = validator.validate_tokens(&tokens);

    assert!(diagnostics.iter().any(|d| {
        matches!(d, DiagnosticError::SyntaxError { message, .. }
            if message.contains("use '->' for sequence flow"))
    }));
}

#[test]
fn gateway_missing_closing_brace_is_flagged() {
    let input = "xor G? { [a] -> X";
    let lexer = Lexer::new(input, "brace.bpmn");
    let tokens = lexer.tokenize();

    let mut validator = ContextValidator::new(input.to_string());
    let diagnostics = validator.validate_tokens(&tokens);

    assert!(diagnostics.iter().any(|d| {
        matches!(d, DiagnosticError::SyntaxError { message, .. }
            if message.contains("missing closing brace"))
    }));
}

#[test]
fn gateway_missing_opening_brace_is_flagged() {
    let input = "xor G? [a] -> X";
    let lexer = Lexer::new(input, "brace2.bpmn");
    let tokens = lexer.tokenize();

    let mut validator = ContextValidator::new(input.to_string());
    let diagnostics = validator.validate_tokens(&tokens);

    assert!(diagnostics.iter().any(|d| {
        matches!(d, DiagnosticError::SyntaxError { message, .. }
            if message.contains("missing opening brace"))
    }));
}

#[test]
fn unknown_flow_source_is_reported() {
    let ast = parse_input("process P { start task T end ghost -> T }");
    let result = validate_syntax(&ast);
    assert!(result.is_err());
    let errors = result.unwrap_err();
    assert!(
        errors
            .iter()
            .any(|e| e.message.contains("Unknown flow source: 'ghost'"))
    );
}

#[test]
fn default_flow_needs_known_source() {
    let ast = parse_input("process P { start task T end ghost => T }");
    let result = validate_syntax(&ast);
    assert!(result.is_err());
    let errors = result.unwrap_err();
    assert!(
        errors
            .iter()
            .any(|e| e.message.contains("The default arrow can only come from the gateway"))
    );
}

#[test]
fn empty_gateway_block_is_not_flagged() {
    let input = "xor { }";
    let lexer = Lexer::new(input, "empty_gw.bpmn");
    let tokens = lexer.tokenize();

    let mut validator = ContextValidator::new(input.to_string());
    let diagnostics = validator.validate_tokens(&tokens);

    assert!(
        diagnostics.is_empty(),
        "an empty, properly closed block must not be flagged: {diagnostics:?}"
    );
}

#[test]
fn subprocess_flows_are_validated_in_their_own_scope() {
    let ast = parse_input(
        "process P { start subprocess S { start task A end ghost -> A } end }",
    );
    assert_eq!(ast.errors.len(), 0, "errors: {:?}", ast.errors);

    let result = validate_syntax(&ast);
    assert!(result.is_err());
    let errors = result.unwrap_err();
    assert!(
        errors
            .iter()
            .any(|e| e.message.contains("Unknown flow source: 'ghost'")),
        "a subprocess flow with an unknown source must be reported: {errors:?}"
    );
}

#[test]
fn lane_bodies_get_their_own_scope() {
    let ast = parse_input(
        "process P { start pool Q { lane L { task T task T } } end }",
    );
    assert_eq!(ast.errors.len(), 0, "errors: {:?}", ast.errors);

    let result = validate_syntax(&ast);
    assert!(result.is_err());
    let errors = result.unwrap_err();
    assert!(
        errors
            .iter()
            .any(|e| e.message.contains("Duplicate node id 'T'")),
        "a duplicate inside a lane body must be reported: {errors:?}"
    );

    let ok_ast = parse_input(
        "process P { start task T pool Q { lane L { task T } } end }",
    );
    assert_eq!(ok_ast.errors.len(), 0, "errors: {:?}", ok_ast.errors);
    if let Err(errors) = validate_syntax(&ok_ast) {
        assert!(
            !errors.iter().any(|e| e.message.contains("Duplicate")),
            "a lane scope must not clash with its process: {errors:?}"
        );
    }
}

#[test]
fn nested_scopes_do_not_share_identifiers() {
    let ast = parse_input(
        "process P { start task T subprocess S { start task T end } end }",
    );
    assert_eq!(ast.errors.len(), 0, "errors: {:?}", ast.errors);

    let result = validate_syntax(&ast);
    if let Err(errors) = &result {
        assert!(
            !errors.iter().any(|e| e.message.contains("Duplicate")),
            "nested scopes must not clash: {errors:?}"
        );
    }
}

#[test]
fn string_escape_passes_compose() {
    let ast = parse_input(r#"process P { note "a\\nb" end }"#);
    assert_eq!(ast.errors.len(), 0, "errors: {:?}", ast.errors);
    if let ProcessElement::Annotation { text, .. } = &ast.processes[0].elements[0] {
        assert_eq!(text, "a\nb");
    } else {
        panic!("Expected Annotation");
    }
}

#[test]
fn repeated_attribute_key_overwrites() {
    let ast = parse_input("process P { task T (retries=1, retries=2) end }");
    assert_eq!(ast.errors.len(), 0, "errors: {:?}", ast.errors);
    if let ProcessElement::Task { attributes, .. } = &ast.processes[0].elements[0] {
        match attributes.get("retries") {
            Some(AttributeValue::Number(n)) => assert_eq!(n, "2"),
            other => panic!("Expected a number, got {other:?}"),
        }
    } else {
        panic!("Expected Task");
    }
}

#[test]
fn both_attribute_forms_combine() {
    let ast = parse_input(r#"process P { task T @assignee "ann" (retries=2) end }"#);
    assert_eq!(ast.errors.len(), 0, "errors: {:?}", ast.errors);
    if let ProcessElement::Task { attributes, .. } = &ast.processes[0].elements[0] {
        assert!(attributes.contains_key("assignee"));
        assert!(attributes.contains_key("retries"));
        match attributes.get("assignee") {
            Some(AttributeValue::String(s)) => assert_eq!(s, "ann"),
            other => panic!("Expected a string, got {other:?}"),
        }
    } else {
        panic!("Expected Task");
    }
}

#[test]
fn bare_attribute_key_defaults_to_true() {
    let ast = parse_input("process P @collapsed { start end }");
    assert_eq!(ast.errors.len(), 0, "errors: {:?}", ast.errors);
    match ast.processes[0].attributes.get("collapsed") {
        Some(AttributeValue::Boolean(b)) => assert!(*b),
        other => panic!("Expected a boolean, got {other:?}"),
    }
}

#[test]
fn condition_text_glues_operators() {
    let ast = parse_input("process P { task A task B end A -> B [x = = y] }");
    let process = &ast.processes[0];
    let flow = process
        .flows
        .iter()
        .find(|f| f.condition.is_some())
        .expect("Should have conditional flow");
    assert_eq!(flow.condition.as_ref().unwrap(), "x== y");
}
