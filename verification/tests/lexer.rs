use bpmncode::lexer::{Lexer, TokenKind};

#[test]
fn test_basic_keywords() {
    let input = "process start end task user service script call xor and event";
    let lexer = Lexer::new(input, "test.bpmn");
    let tokens = lexer.tokenize();

    let expected = vec![
        TokenKind::Process,
        TokenKind::Start,
        TokenKind::End,
        TokenKind::Task,
        TokenKind::User,
        TokenKind::Service,
        TokenKind::Script,
        TokenKind::Call,
        TokenKind::Xor,
        TokenKind::And,
        TokenKind::Event,
        TokenKind::Eof,
    ];

    let actual: Vec<_> = tokens.iter().map(|t| t.kind.clone()).collect();
    assert_eq!(actual, expected);
}

#[test]
fn test_flow_arrows() {
    let input = "-> --> => ..>";
    let lexer = Lexer::new(input, "test.bpmn");
    let tokens = lexer.tokenize();

    assert_eq!(tokens[0].kind, TokenKind::SequenceFlow);
    assert_eq!(tokens[1].kind, TokenKind::MessageFlow);
    assert_eq!(tokens[2].kind, TokenKind::DefaultFlow);
    assert_eq!(tokens[3].kind, TokenKind::Association);
}

#[test]
fn test_string_literals() {
    let input = r#""Simple string" "String with spaces" "String with \"quotes\"""#;
    let lexer = Lexer::new(input, "test.bpmn");
    let tokens = lexer.tokenize();

    assert_eq!(tokens[0].kind, TokenKind::StringLiteral);
    assert_eq!(tokens[0].text, r#""Simple string""#);

    assert_eq!(tokens[1].kind, TokenKind::StringLiteral);
    assert_eq!(tokens[1].text, r#""String with spaces""#);

    assert_eq!(tokens[2].kind, TokenKind::StringLiteral);
    assert_eq!(tokens[2].text, r#""String with \"quotes\"""#);
}

#[test]
fn test_number_literals() {
    let input = "42 3.14 5m 10s 100ms";
    let lexer = Lexer::new(input, "test.bpmn");
    let tokens = lexer.tokenize();

    assert_eq!(tokens[0].kind, TokenKind::NumberLiteral);
    assert_eq!(tokens[0].text, "42");

    assert_eq!(tokens[1].kind, TokenKind::NumberLiteral);
    assert_eq!(tokens[1].text, "3.14");

    assert_eq!(tokens[2].kind, TokenKind::NumberLiteral);
    assert_eq!(tokens[2].text, "5m");

    assert_eq!(tokens[3].kind, TokenKind::NumberLiteral);
    assert_eq!(tokens[3].text, "10s");

    assert_eq!(tokens[4].kind, TokenKind::NumberLiteral);
    assert_eq!(tokens[4].text, "100ms");
}

#[test]
fn test_identifiers() {
    let input = "ValidateOrder _private camelCase snake_case Order123";
    let lexer = Lexer::new(input, "test.bpmn");
    let tokens = lexer.tokenize();

    let identifiers: Vec<_> = tokens
        .iter()
        .filter(|t| t.kind == TokenKind::Identifier)
        .map(|t| &t.text)
        .collect();

    assert_eq!(
        identifiers,
        vec![
            "ValidateOrder",
            "_private",
            "camelCase",
            "snake_case",
            "Order123"
        ]
    );
}

#[test]
fn test_comments() {
    let input = r"
            // Single line comment
            task ValidateOrder
            /* Multi-line
            comment */
            end
        ";
    let lexer = Lexer::new(input, "test.bpmn");
    let tokens = lexer.tokenize();

    let comment_tokens: Vec<_> = tokens
        .iter()
        .filter(|t| matches!(t.kind, TokenKind::LineComment | TokenKind::BlockComment))
        .collect();

    assert_eq!(comment_tokens.len(), 2);
    assert_eq!(comment_tokens[0].kind, TokenKind::LineComment);
    assert_eq!(comment_tokens[1].kind, TokenKind::BlockComment);
}

#[test]
fn test_complete_process() {
    let input = r#"
            process OrderFlow @version "1.2" {
                start
                task ValidateOrder (async=true retries=3)
                xor InStock? {
                    yes -> ShipOrder
                    no -> NotifyCustomer
                }
                and SplitDelivery {
                    branch1 -> Pack
                    branch2 -> EmailInvoice
                }
                ShipOrder -> end
                NotifyCustomer -> end
            }
        "#;

    let lexer = Lexer::new(input, "order_flow.bpmn");
    let tokens = lexer.tokenize();

    let keywords: Vec<_> = tokens
        .iter()
        .filter(|t| {
            matches!(
                t.kind,
                TokenKind::Process
                    | TokenKind::Start
                    | TokenKind::End
                    | TokenKind::Task
                    | TokenKind::Xor
                    | TokenKind::And
            )
        })
        .map(|t| &t.kind)
        .collect();

    assert!(keywords.contains(&&TokenKind::Process));
    assert!(keywords.contains(&&TokenKind::Start));
    assert!(keywords.contains(&&TokenKind::End));
    assert!(keywords.contains(&&TokenKind::Task));
    assert!(keywords.contains(&&TokenKind::Xor));
    assert!(keywords.contains(&&TokenKind::And));
}

#[test]
fn test_imports_and_namespaces() {
    let input = r#"
            import "flows/payment.bpmn" as payment
            import subprocess PaymentFlow, DataValidation from "common.bpmn"
            call payment::ProcessPayment
        "#;

    let lexer = Lexer::new(input, "main.bpmn");
    let tokens = lexer.tokenize();

    let import_related: Vec<_> = tokens
        .iter()
        .filter(|t| {
            matches!(
                t.kind,
                TokenKind::Import
                    | TokenKind::As
                    | TokenKind::From
                    | TokenKind::Subprocess
                    | TokenKind::Call
                    | TokenKind::Namespace
            )
        })
        .map(|t| &t.kind)
        .collect();

    assert!(import_related.contains(&&TokenKind::Import));
    assert!(import_related.contains(&&TokenKind::As));
    assert!(import_related.contains(&&TokenKind::From));
    assert!(import_related.contains(&&TokenKind::Subprocess));
    assert!(import_related.contains(&&TokenKind::Call));
    assert!(import_related.contains(&&TokenKind::Namespace));
}

#[test]
fn lexer_test_pools_and_lanes() {
    let input = r"
            pool Sales {
                lane FrontOffice {
                    task ReceiveOrder
                }
                lane BackOffice {
                    task ProcessOrder
                }
            }
        ";

    let lexer = Lexer::new(input, "pools.bpmn");
    let tokens = lexer.tokenize();

    let pool_tokens: Vec<_> = tokens
        .iter()
        .filter(|t| matches!(t.kind, TokenKind::Pool | TokenKind::Lane))
        .collect();

    assert_eq!(pool_tokens.len(), 3);
}

#[test]
fn test_attributes_and_annotations() {
    let input = r#"
            process Test @version "1.0" @author "Developer" {
                task Validate (async=true retries=3 timeout=30s)
                event timer 5m
            }
        "#;

    let lexer = Lexer::new(input, "attributes.bpmn");
    let tokens = lexer.tokenize();

    let at_tokens: Vec<_> = tokens.iter().filter(|t| t.kind == TokenKind::At).collect();

    assert_eq!(at_tokens.len(), 2);

    let paren_tokens: Vec<_> = tokens
        .iter()
        .filter(|t| matches!(t.kind, TokenKind::LeftParen | TokenKind::RightParen))
        .collect();

    assert_eq!(paren_tokens.len(), 2);
}

#[test]
fn test_position_tracking() {
    let input = "start\ntask ValidateOrder\nend";
    let lexer = Lexer::new(input, "position.bpmn");
    let tokens = lexer.tokenize();

    let start_token = tokens.iter().find(|t| t.kind == TokenKind::Start).unwrap();
    assert_eq!(start_token.span.line, 1);
    assert_eq!(start_token.span.column, 1);

    let task_token = tokens.iter().find(|t| t.kind == TokenKind::Task).unwrap();
    assert_eq!(task_token.span.line, 2);
    assert_eq!(task_token.span.column, 1);

    let end_token = tokens.iter().find(|t| t.kind == TokenKind::End).unwrap();
    assert_eq!(end_token.span.line, 3);
    assert_eq!(end_token.span.column, 1);
}

#[test]
fn test_file_tracking() {
    let input = "process Test { start -> end }";
    let lexer = Lexer::new(input, "test/order.bpmn");
    let tokens = lexer.tokenize();

    for token in &tokens {
        assert_eq!(token.span.file, "test/order.bpmn");
    }
}

#[test]
fn lexer_test_error_recovery() {
    let input = "task ValidOrder & invalid @ symbols -> end";
    let lexer = Lexer::new(input, "error.bpmn");
    let tokens = lexer.tokenize();

    let unknown_tokens: Vec<_> = tokens
        .iter()
        .filter(|t| t.kind == TokenKind::Unknown)
        .collect();

    assert!(!unknown_tokens.is_empty());

    assert!(tokens.iter().any(|t| t.kind == TokenKind::Task));
    assert!(tokens.iter().any(|t| t.kind == TokenKind::SequenceFlow));
    assert!(tokens.iter().any(|t| t.kind == TokenKind::End));
}

#[test]
fn lexer_test_whitespace_handling() {
    let input = "  start  \t\n  task   ValidateOrder  \n  end  ";
    let lexer = Lexer::new(input, "whitespace.bpmn");
    let tokens = lexer.tokenize();

    let non_whitespace: Vec<_> = tokens
        .iter()
        .filter(|t| {
            !matches!(
                t.kind,
                TokenKind::Newline | TokenKind::CarriageReturnNewline
            )
        })
        .map(|t| &t.kind)
        .collect();

    assert_eq!(
        non_whitespace,
        vec![
            &TokenKind::Start,
            &TokenKind::Task,
            &TokenKind::Identifier,
            &TokenKind::End,
            &TokenKind::Eof
        ]
    );
}

#[test]
fn test_complex_expressions() {
    let input = r#"
xor PaymentValid? {
    [amount > 0 && currency == "USD"] -> ProcessPayment
    [amount <= 0] -> RejectPayment
}
"#;

    let lexer = Lexer::new(input, "complex.bpmn");
    let tokens = lexer.tokenize();

    let brackets: Vec<_> = tokens
        .iter()
        .filter(|t| matches!(t.kind, TokenKind::LeftBracket | TokenKind::RightBracket))
        .collect();

    assert_eq!(brackets.len(), 4);
}

#[test]
fn lexer_test_empty_input() {
    let input = "";
    let lexer = Lexer::new(input, "empty.bpmn");
    let tokens = lexer.tokenize();

    assert_eq!(tokens.len(), 1);
    assert_eq!(tokens[0].kind, TokenKind::Eof);
}

#[test]
fn test_only_comments() {
    let input = r"
            // This is a comment
            /* This is another comment */
        ";

    let lexer = Lexer::new(input, "comments.bpmn");
    let tokens = lexer.tokenize();

    let non_whitespace: Vec<_> = tokens
        .iter()
        .filter(|t| {
            !matches!(
                t.kind,
                TokenKind::Newline | TokenKind::CarriageReturnNewline
            )
        })
        .collect();

    assert_eq!(non_whitespace.len(), 3);
}
