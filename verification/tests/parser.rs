use vm_translator::parser::{Command, CommandCategory, ParseError, Parser};
use vm_translator::tokenizer::{default_ruleset, Token, TokenList, TokenType, Tokenizer};

fn tokens_of(line: &str) -> TokenList {
    Tokenizer::from(default_ruleset()).tokenize(line).unwrap()
}

fn parse_line(line: &str) -> Result<Option<Command>, ParseError> {
    Parser::parse_line(&tokens_of(line), &String::from("Main"), 1)
}

#[test]
fn memory_access_parse_test() {
    let mut parser = Parser::new();
    let input: TokenList = vec![
        Token::from(String::from("push"), TokenType::Push, true),
        Token::from(String::from("local"), TokenType::Symbol, false),
        Token::from(String::from("0"), TokenType::Index, false),
    ];

    let output = parser.parse(input);

    assert_eq!(
        output.unwrap(),
        Some(Command::Push {
            segment: String::from("local"),
            index: 0,
            class_name: String::new()
        })
    );
}

#[test]
fn arithmetic_parse_test() {
    let mut parser = Parser::new();
    let input: TokenList = vec![Token::from(String::from("add"), TokenType::Add, true)];

    let output = parser.parse(input);
    assert_eq!(output.unwrap(), Some(Command::Arithmetic(TokenType::Add)));
}

#[test]
fn comment_parse_test() {
    let mut parser = Parser::new();
    let input: TokenList = vec![
        Token::from(String::from("//"), TokenType::Comment, false),
        Token::from(String::from("hello"), TokenType::Symbol, false),
    ];

    let output = parser.parse(input);
    assert_eq!(output.unwrap(), None);
}

#[test]
fn inline_comment_parse_test() {
    let mut parser = Parser::new();
    let input: TokenList = vec![
        Token::from(String::from("add"), TokenType::Add, true),
        Token::from(String::from("//"), TokenType::Comment, false),
    ];

    let output = parser.parse(input);
    assert_eq!(output.unwrap(), Some(Command::Arithmetic(TokenType::Add)));
}

#[test]
fn no_tokens_parse_test() {
    let mut parser = Parser::new();
    let input: TokenList = vec![];

    let output = parser.parse(input);
    assert_eq!(output.unwrap(), None);
}

#[test]
fn push_local_two_round_trip() {
    let tokens = tokens_of("push local 2");
    assert_eq!(
        tokens,
        vec![
            Token::from(String::from("push"), TokenType::Push, true),
            Token::from(String::from("local"), TokenType::Symbol, false),
            Token::from(String::from("2"), TokenType::Index, false),
        ]
    );
    let mut parser = Parser::from(vec![], String::from("Main"));
    assert_eq!(
        parser.parse(tokens),
        Ok(Some(Command::Push {
            segment: String::from("local"),
            index: 2,
            class_name: String::from("Main"),
        }))
    );
}

#[test]
fn full_line_comment_and_blank_line_hold_nothing() {
    assert_eq!(parse_line("// hello"), Ok(None));
    assert_eq!(parse_line(""), Ok(None));
    assert_eq!(parse_line("   "), Ok(None));
    assert_eq!(parse_line("//push constant 1"), Ok(None));
}

#[test]
fn inline_comment_parses_as_the_command_alone() {
    assert_eq!(parse_line("add // note"), parse_line("add"));
    assert_eq!(parse_line("add // note"), Ok(Some(Command::Arithmetic(TokenType::Add))));
    assert_eq!(parse_line("push constant 7 // seven"), parse_line("push constant 7"));
    assert_eq!(parse_line("return //done"), Ok(Some(Command::Return)));
    // a comment in the place of an operand leaves the operand missing
    assert_eq!(parse_line("push constant // 7"), parse_line("push constant"));
}

#[test]
fn every_command_shape_parses() {
    assert_eq!(
        parse_line("pop that 5"),
        Ok(Some(Command::Pop {
            segment: String::from("that"),
            index: 5,
            class_name: String::from("Main"),
        }))
    );
    assert_eq!(parse_line("label loop"), Ok(Some(Command::Label(String::from("loop")))));
    assert_eq!(parse_line("goto loop"), Ok(Some(Command::Goto(String::from("loop")))));
    assert_eq!(parse_line("if-goto loop"), Ok(Some(Command::If(String::from("loop")))));
    assert_eq!(
        parse_line("function Foo 3"),
        Ok(Some(Command::Function { symbol: String::from("Foo"), nvars: 3 }))
    );
    assert_eq!(
        parse_line("call Foo 2"),
        Ok(Some(Command::Call { symbol: String::from("Foo"), nargs: 2 }))
    );
    assert_eq!(parse_line("return"), Ok(Some(Command::Return)));
}

#[test]
fn every_operator_parses() {
    let cases = [
        ("add", TokenType::Add),
        ("sub", TokenType::Subtract),
        ("neg", TokenType::Negate),
        ("eq", TokenType::Equal),
        ("gt", TokenType::GreaterThan),
        ("lt", TokenType::LessThan),
        ("and", TokenType::And),
        ("or", TokenType::Or),
        ("not", TokenType::Not),
    ];
    for (word, kind) in cases {
        assert_eq!(parse_line(word), Ok(Some(Command::Arithmetic(kind))));
    }
}

#[test]
fn line_without_leading_keyword_is_a_keyword_error() {
    assert_eq!(parse_line("local 2"), Err(ParseError::KeywordError { line_number: 1 }));
    assert_eq!(parse_line("2 local"), Err(ParseError::KeywordError { line_number: 1 }));
    assert_eq!(parse_line("%%%"), Err(ParseError::KeywordError { line_number: 1 }));
    assert_eq!(parse_line("foo push local 2"), Err(ParseError::KeywordError { line_number: 1 }));
}

#[test]
fn keyword_mark_on_an_operand_kind_is_a_keyword_error() {
    let mut parser = Parser::new();
    let input: TokenList = vec![Token::from(String::from("local"), TokenType::Symbol, true)];
    assert_eq!(parser.parse(input), Err(ParseError::KeywordError { line_number: 0 }));
    let input: TokenList = vec![Token::from(String::from("?"), TokenType::Undefined, true)];
    assert_eq!(parser.parse(input), Err(ParseError::KeywordError { line_number: 0 }));
}

#[test]
fn memory_access_argument_errors() {
    let error = Err(ParseError::ArgumentError {
        command_type: CommandCategory::MemoryAccess,
        line_number: 1,
    });
    assert_eq!(parse_line("push"), error);
    assert_eq!(parse_line("push local"), error);
    assert_eq!(parse_line("push 2 local"), error);
    assert_eq!(parse_line("pop local local"), error);
    assert_eq!(parse_line("pop 1 2"), error);
    assert_eq!(parse_line("push local 65536"), error);
    assert_eq!(parse_line("push local 2A"), error);
    assert_eq!(parse_line("push local %"), error);
}

#[test]
fn control_flow_argument_errors() {
    let error = Err(ParseError::ArgumentError {
        command_type: CommandCategory::ControlFlow,
        line_number: 1,
    });
    assert_eq!(parse_line("label"), error);
    assert_eq!(parse_line("goto 12"), error);
    assert_eq!(parse_line("if-goto %"), error);
    assert_eq!(parse_line("goto // loop"), error);
}

#[test]
fn function_argument_errors() {
    let error = Err(ParseError::ArgumentError {
        command_type: CommandCategory::Function,
        line_number: 1,
    });
    assert_eq!(parse_line("function"), error);
    assert_eq!(parse_line("function Foo"), error);
    assert_eq!(parse_line("call Foo bar"), error);
    assert_eq!(parse_line("call 2 Foo"), error);
    assert_eq!(parse_line("call Foo 70000"), error);
}

#[test]
fn index_limits() {
    assert_eq!(
        parse_line("push constant 65535"),
        Ok(Some(Command::Push {
            segment: String::from("constant"),
            index: 65535,
            class_name: String::from("Main"),
        }))
    );
    assert_eq!(
        parse_line("push constant 007"),
        Ok(Some(Command::Push {
            segment: String::from("constant"),
            index: 7,
            class_name: String::from("Main"),
        }))
    );
    assert_eq!(
        parse_line("call Foo +3"),
        Ok(Some(Command::Call { symbol: String::from("Foo"), nargs: 3 }))
    );
}

#[test]
fn advance_reads_line_after_line() {
    let lines = vec![
        tokens_of("push constant 1"),
        tokens_of(""),
        tokens_of("// note"),
        tokens_of("local 3"),
        tokens_of("pop local"),
        tokens_of("neg"),
    ];
    let mut parser = Parser::from(lines, String::from("File"));
    assert!(parser.has_more_commands());
    assert_eq!(
        parser.advance(),
        Ok(Some(Command::Push {
            segment: String::from("constant"),
            index: 1,
            class_name: String::from("File"),
        }))
    );
    assert_eq!(parser.advance(), Ok(None));
    assert_eq!(parser.advance(), Ok(None));
    // an error moves the cursor too, and counts lines from one
    assert_eq!(parser.advance(), Err(ParseError::KeywordError { line_number: 4 }));
    assert!(parser.has_more_commands());
    assert_eq!(
        parser.advance(),
        Err(ParseError::ArgumentError {
            command_type: CommandCategory::MemoryAccess,
            line_number: 5,
        })
    );
    assert_eq!(parser.advance(), Ok(Some(Command::Arithmetic(TokenType::Negate))));
    assert!(!parser.has_more_commands());
}

#[test]
fn new_parser_has_no_lines() {
    let parser = Parser::new();
    assert!(!parser.has_more_commands());
    let parser = Parser::from(vec![], String::from("Empty"));
    assert!(!parser.has_more_commands());
}

#[test]
fn parse_leaves_the_cursor() {
    let mut parser = Parser::from(vec![tokens_of("add"), tokens_of("sub")], String::from("F"));
    assert_eq!(parser.parse(tokens_of("x")), Err(ParseError::KeywordError { line_number: 0 }));
    assert_eq!(parser.advance(), Ok(Some(Command::Arithmetic(TokenType::Add))));
    assert_eq!(parser.parse(tokens_of("x")), Err(ParseError::KeywordError { line_number: 1 }));
    assert_eq!(parser.advance(), Ok(Some(Command::Arithmetic(TokenType::Subtract))));
    assert!(!parser.has_more_commands());
}

#[test]
fn helper_parsers() {
    let push = Token::from(String::from("push"), TokenType::Push, true);
    let add = Token::from(String::from("add"), TokenType::Add, true);
    let goto = Token::from(String::from("goto"), TokenType::Goto, true);
    let call = Token::from(String::from("call"), TokenType::Call, true);
    let name = Token::from(String::from("name"), TokenType::Symbol, false);
    let nine = Token::from(String::from("9"), TokenType::Index, false);
    assert_eq!(
        Parser::mem_access_parse(&push, &name, &nine, String::from("C")),
        Some(Command::Push { segment: String::from("name"), index: 9, class_name: String::from("C") })
    );
    assert_eq!(Parser::mem_access_parse(&add, &name, &nine, String::from("C")), None);
    assert_eq!(Parser::mem_access_parse(&push, &nine, &name, String::from("C")), None);
    assert_eq!(Parser::control_flow_parse(&goto, &name), Some(Command::Goto(String::from("name"))));
    assert_eq!(Parser::control_flow_parse(&goto, &nine), None);
    assert_eq!(Parser::control_flow_parse(&push, &name), None);
    assert_eq!(
        Parser::function_command_parse(&call, &name, &nine),
        Some(Command::Call { symbol: String::from("name"), nargs: 9 })
    );
    assert_eq!(Parser::function_command_parse(&goto, &name, &nine), None);
    assert_eq!(Parser::arithmetic_parse(&add), Some(Command::Arithmetic(TokenType::Add)));
    assert_eq!(Parser::arithmetic_parse(&push), None);
    assert_eq!(Parser::arithmetic_parse(&name), None);
}

#[test]
fn error_messages() {
    let keyword = ParseError::KeywordError { line_number: 12 };
    assert_eq!(keyword.message(), "Expected keyword at line 12");
    assert_eq!(keyword.line_number(), 12);
    let memory = ParseError::ArgumentError {
        command_type: CommandCategory::MemoryAccess,
        line_number: 3,
    };
    assert_eq!(memory.message(), "Improper arguments for Memory Access command at line 3");
    assert_eq!(memory.line_number(), 3);
    let flow = ParseError::ArgumentError {
        command_type: CommandCategory::ControlFlow,
        line_number: 40,
    };
    assert_eq!(flow.message(), "Improper arguments for Control Flow command at line 40");
    let function = ParseError::ArgumentError {
        command_type: CommandCategory::Function,
        line_number: 0,
    };
    assert_eq!(function.message(), "Improper arguments for Function command at line 0");
    assert_eq!(CommandCategory::Function.name(), "Function");
}
