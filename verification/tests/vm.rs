use std::collections::HashMap;
use vm_translator::parser::{CommandCategory, ParseError};
use vm_translator::vm::{generate, parse_file, parse_program, tokenize_lines, translate, SourceFile, TranslateError};
use vm_translator::parser::Command;
use vm_translator::symbol_table::SymbolTable;
use vm_translator::tokenizer::{default_ruleset, TokenType, Tokenizer};
use vm_translator::writer::{AsmWriter, CodeGenError};

fn source(name: &str, lines: &[&str]) -> SourceFile {
    SourceFile {
        name: String::from(name),
        lines: lines.iter().map(|line| String::from(*line)).collect(),
    }
}

/// A machine that runs the generated text: registers A and D, a program
/// counter, and a memory of 16-bit words.
struct Machine {
    rom: Vec<String>,
    labels: HashMap<String, usize>,
    variables: HashMap<String, usize>,
    ram: Vec<i16>,
    a: i16,
    d: i16,
    pc: usize,
}

impl Machine {
    fn load(text: &str) -> Machine {
        let mut rom = Vec::new();
        let mut labels = HashMap::new();
        for line in text.lines() {
            assert!(!line.is_empty(), "empty line in the generated text");
            if line.starts_with("//") {
                continue;
            }
            if line.starts_with('(') {
                assert!(line.ends_with(')'), "label line: {}", line);
                let old = labels.insert(line[1..line.len() - 1].to_string(), rom.len());
                assert!(old.is_none(), "label defined twice: {}", line);
            } else {
                rom.push(line.to_string());
            }
        }
        Machine {
            rom,
            labels,
            variables: HashMap::new(),
            ram: vec![0; 32768],
            a: 0,
            d: 0,
            pc: 0,
        }
    }

    fn address_of(&mut self, symbol: &str) -> usize {
        if let Ok(number) = symbol.parse::<usize>() {
            return number;
        }
        match symbol {
            "SP" => return 0,
            "LCL" => return 1,
            "ARG" => return 2,
            "THIS" => return 3,
            "THAT" => return 4,
            "R13" => return 13,
            "R14" => return 14,
            "R15" => return 15,
            _ => {}
        }
        if let Some(at) = self.labels.get(symbol) {
            return *at;
        }
        let next = 16 + self.variables.len();
        *self.variables.entry(symbol.to_string()).or_insert(next)
    }

    fn value(&self, expr: &str) -> i16 {
        let a = self.a;
        let d = self.d;
        let m = self.ram[(self.a as u16 as usize) % 32768];
        match expr {
            "0" => 0,
            "1" => 1,
            "-1" => -1,
            "D" => d,
            "A" => a,
            "M" => m,
            "!D" => !d,
            "!A" => !a,
            "!M" => !m,
            "-D" => d.wrapping_neg(),
            "-A" => a.wrapping_neg(),
            "-M" => m.wrapping_neg(),
            "D+1" => d.wrapping_add(1),
            "A+1" => a.wrapping_add(1),
            "M+1" => m.wrapping_add(1),
            "D-1" => d.wrapping_sub(1),
            "A-1" => a.wrapping_sub(1),
            "M-1" => m.wrapping_sub(1),
            "D+A" => d.wrapping_add(a),
            "D+M" => d.wrapping_add(m),
            "D-A" => d.wrapping_sub(a),
            "D-M" => d.wrapping_sub(m),
            "A-D" => a.wrapping_sub(d),
            "M-D" => m.wrapping_sub(d),
            "D&A" => d & a,
            "D&M" => d & m,
            "D|A" => d | a,
            "D|M" => d | m,
            _ => panic!("no such computation: {}", expr),
        }
    }

    /// Runs until the program counter leaves the program or `steps`
    /// instructions were run.
    fn run(&mut self, steps: usize) {
        for _ in 0..steps {
            if self.pc >= self.rom.len() {
                return;
            }
            let line = self.rom[self.pc].clone();
            if let Some(symbol) = line.strip_prefix('@') {
                self.a = self.address_of(symbol) as i16;
                self.pc += 1;
                continue;
            }
            let (dest, rest) = match line.split_once('=') {
                Some((dest, rest)) => (dest, rest),
                None => ("", line.as_str()),
            };
            let (expr, jump) = match rest.split_once(';') {
                Some((expr, jump)) => (expr, jump),
                None => (rest, ""),
            };
            let value = self.value(expr);
            let target = self.a as u16 as usize;
            for register in dest.chars() {
                match register {
                    'A' => self.a = value,
                    'D' => self.d = value,
                    'M' => self.ram[target % 32768] = value,
                    _ => panic!("no such destination: {}", line),
                }
            }
            let taken = match jump {
                "" => false,
                "JGT" => value > 0,
                "JEQ" => value == 0,
                "JGE" => value >= 0,
                "JLT" => value < 0,
                "JNE" => value != 0,
                "JLE" => value <= 0,
                "JMP" => true,
                _ => panic!("no such jump: {}", line),
            };
            if taken {
                self.pc = target;
            } else {
                self.pc += 1;
            }
        }
    }

    fn sp(&self) -> usize {
        self.ram[0] as usize
    }

    fn top(&self) -> i16 {
        self.ram[self.sp() - 1]
    }
}

fn run_program(lines: &[&str], steps: usize) -> Machine {
    let text = translate(&vec![source("Main", lines)], false).unwrap();
    let mut machine = Machine::load(&text);
    machine.ram[0] = 256;
    machine.ram[1] = 300;
    machine.ram[2] = 400;
    machine.ram[3] = 3000;
    machine.ram[4] = 3010;
    machine.run(steps);
    machine
}

#[test]
fn seven_plus_eight_leaves_fifteen() {
    let text = translate(
        &vec![source("Main", &["push constant 7", "push constant 8", "add"])],
        false,
    )
    .unwrap();
    assert_eq!(
        text,
        "//Command #0\n@7\nD=A\n@SP\nA=M\nM=D\n@SP\nM=M+1\n//Command #1\n@8\nD=A\n@SP\nA=M\nM=D\n@SP\nM=M+1\n//Command #2\n@SP\nAM=M-1\nD=M\n@SP\nAM=M-1\nD=D+M\n@SP\nA=M\nM=D\n@SP\nM=M+1\n"
    );
    let machine = run_program(&["push constant 7", "push constant 8", "add"], 1000);
    assert_eq!(machine.sp(), 257);
    assert_eq!(machine.top(), 15);
}

#[test]
fn call_and_return_replace_the_arguments_by_the_result() {
    let lines = [
        "push constant 11",
        "push constant 3",
        "push constant 4",
        "call Foo 2",
        "label stop",
        "goto stop",
        "function Foo 1",
        "push argument 0",
        "push argument 1",
        "add",
        "pop local 0",
        "push constant 100",
        "push local 0",
        "return",
    ];
    // up to the call: three values on the stack
    let before = run_program(&lines[..3], 1000);
    assert_eq!(before.sp(), 259);
    let after = run_program(&lines, 10000);
    // the two arguments are gone and the result is in their place: the
    // stack pointer is behind the cell that lies two below where it was
    assert_eq!(after.sp(), before.sp() - 2 + 1);
    assert_eq!(after.top(), 7);
    assert_eq!(after.ram[before.sp() - 2], 7);
    // what was below the arguments is untouched
    assert_eq!(after.ram[256], 11);
    // the caller's segments are back
    assert_eq!(&after.ram[1..5], &[300, 400, 3000, 3010]);
}

#[test]
fn callee_sees_its_arguments_and_zeroed_locals() {
    let lines = [
        "push constant 21",
        "push constant 22",
        "call Foo 2",
        "label stop",
        "goto stop",
        "function Foo 3",
        "label spin",
        "goto spin",
    ];
    let machine = run_program(&lines, 10000);
    // return address and four pointers lie above the two arguments
    assert_eq!(machine.ram[2], 256);
    assert_eq!(machine.ram[1], 263);
    assert_eq!(machine.sp(), 266);
    assert_eq!(&machine.ram[256..258], &[21, 22]);
    assert_eq!(&machine.ram[259..263], &[300, 400, 3000, 3010]);
    assert_eq!(&machine.ram[263..266], &[0, 0, 0]);
}

#[test]
fn nested_calls_return_in_order() {
    let lines = [
        "push constant 5",
        "call Double 1",
        "call Double 1",
        "call Inc 1",
        "label stop",
        "goto stop",
        "function Double 0",
        "push argument 0",
        "push argument 0",
        "add",
        "return",
        "function Inc 0",
        "push argument 0",
        "call Double 1",
        "push constant 1",
        "add",
        "return",
    ];
    let machine = run_program(&lines, 100000);
    assert_eq!(machine.sp(), 257);
    assert_eq!(machine.top(), 41);
    assert_eq!(&machine.ram[1..5], &[300, 400, 3000, 3010]);
}

#[test]
fn comparisons_push_all_ones_or_zero() {
    let cases = [
        ("eq", 3, 3, -1),
        ("eq", 3, 4, 0),
        ("gt", 4, 3, -1),
        ("gt", 3, 4, 0),
        ("gt", 3, 3, 0),
        ("lt", 3, 4, -1),
        ("lt", 4, 3, 0),
        ("lt", 3, 3, 0),
    ];
    for (op, x, y, expected) in cases {
        let first = format!("push constant {}", x);
        let second = format!("push constant {}", y);
        let machine = run_program(&[&first, &second, op], 1000);
        assert_eq!(machine.sp(), 257);
        assert_eq!(machine.top(), expected, "{} {} {}", x, op, y);
    }
}

#[test]
fn operators_compute() {
    let machine = run_program(&["push constant 12", "push constant 5", "sub"], 1000);
    assert_eq!((machine.sp(), machine.top()), (257, 7));
    let machine = run_program(&["push constant 12", "push constant 10", "and"], 1000);
    assert_eq!((machine.sp(), machine.top()), (257, 8));
    let machine = run_program(&["push constant 12", "push constant 10", "or"], 1000);
    assert_eq!((machine.sp(), machine.top()), (257, 14));
    let machine = run_program(&["push constant 12", "neg"], 1000);
    assert_eq!((machine.sp(), machine.top()), (257, -12));
    let machine = run_program(&["push constant 12", "not"], 1000);
    assert_eq!((machine.sp(), machine.top()), (257, !12));
}

#[test]
fn segments_are_read_and_written() {
    let lines = [
        "push constant 10",
        "pop local 2",
        "push constant 20",
        "pop argument 1",
        "push constant 30",
        "pop this 3",
        "push constant 40",
        "pop that 4",
        "push constant 50",
        "pop temp 6",
        "push constant 60",
        "pop static 7",
        "push local 2",
        "push argument 1",
        "add",
        "push this 3",
        "add",
        "push that 4",
        "add",
        "push temp 6",
        "add",
        "push static 7",
        "add",
    ];
    let machine = run_program(&lines, 10000);
    assert_eq!(machine.ram[302], 10);
    assert_eq!(machine.ram[401], 20);
    assert_eq!(machine.ram[3003], 30);
    assert_eq!(machine.ram[3014], 40);
    assert_eq!(machine.ram[11], 50);
    assert_eq!(machine.ram[16], 60);
    assert_eq!((machine.sp(), machine.top()), (257, 210));
}

#[test]
fn if_goto_jumps_on_a_negative_value() {
    // counts down from 3: the loop runs while (0 lt counter) is true
    let lines = [
        "push constant 3",
        "pop temp 0",
        "push constant 0",
        "pop temp 1",
        "label loop",
        "push temp 1",
        "push constant 1",
        "add",
        "pop temp 1",
        "push temp 0",
        "push constant 1",
        "sub",
        "pop temp 0",
        "push constant 0",
        "push temp 0",
        "lt",
        "if-goto loop",
        "push temp 1",
    ];
    let machine = run_program(&lines, 100000);
    assert_eq!((machine.sp(), machine.top()), (257, 3));
}

#[test]
fn prologue_starts_the_stack_and_enters_sys_init() {
    let files = vec![source(
        "Sys",
        &["function Sys.init 0", "push constant 42", "label stop", "goto stop"],
    )];
    let text = translate(&files, true).unwrap();
    assert!(text.starts_with("@256\nD=A\n@SP\nM=D\n@RET-Sys.init$0\n"));
    assert_eq!(text.matches("@256\nD=A\n@SP\nM=D\n").count(), 1);
    let mut machine = Machine::load(&text);
    machine.run(10000);
    assert_eq!(machine.sp(), 262);
    assert_eq!(machine.top(), 42);
    assert_eq!(machine.ram[1], 261);
    assert_eq!(machine.ram[2], 256);
}

#[test]
fn prologue_and_program_calls_have_distinct_labels() {
    let files = vec![source(
        "Sys",
        &["function Sys.init 0", "call Sys.init 0", "call Sys.init 0"],
    )];
    let text = translate(&files, true).unwrap();
    // loading fails where a label is defined twice
    let machine = Machine::load(&text);
    assert!(machine.labels.contains_key("RET-Sys.init$0"));
    assert!(machine.labels.contains_key("RET-Sys.init$1"));
    assert!(machine.labels.contains_key("RET-Sys.init$2"));
}

#[test]
fn blank_and_comment_lines_emit_no_code() {
    let plain = translate(&vec![source("Main", &["push constant 7", "neg"])], false).unwrap();
    let padded = translate(
        &vec![source(
            "Main",
            &["", "// hello", "push constant 7", "   ", "\t// more", "neg // note", ""],
        )],
        false,
    )
    .unwrap();
    assert_eq!(plain, padded);
    assert_eq!(
        translate(&vec![source("Main", &["// hello", "", "  "])], false),
        Ok(String::new())
    );
    assert_eq!(translate(&vec![], false), Ok(String::new()));
    assert_eq!(translate(&vec![source("Empty", &[])], false), Ok(String::new()));
}

#[test]
fn static_variables_belong_to_their_file() {
    let files = vec![
        source("One", &["push constant 1", "pop static 0"]),
        source("Two", &["push constant 2", "pop static 0", "push static 0"]),
    ];
    let text = translate(&files, false).unwrap();
    assert!(text.contains("@One.0\n"));
    assert!(text.contains("@Two.0\n"));
    let mut machine = Machine::load(&text);
    machine.ram[0] = 256;
    machine.run(10000);
    assert_eq!(machine.top(), 2);
    let one = machine.address_of("One.0");
    let two = machine.address_of("Two.0");
    assert_ne!(one, two);
    assert_eq!(machine.ram[one], 1);
    assert_eq!(machine.ram[two], 2);
}

#[test]
fn files_are_written_in_their_order() {
    let files = vec![source("A", &["add"]), source("B", &["sub"]), source("C", &["neg"])];
    let text = translate(&files, false).unwrap();
    let add = text.find("D=D+M").unwrap();
    let sub = text.find("D=M-D").unwrap();
    let neg = text.find("D=-D").unwrap();
    assert!(add < sub && sub < neg);
    assert!(text.starts_with("//Command #0\n"));
    assert!(text.contains("//Command #1\n"));
    assert!(text.contains("//Command #2\n"));
}

#[test]
fn first_bad_line_stops_the_translation() {
    let files = vec![
        source("A", &["add", "", "local 1", "pop"]),
        source("B", &["push"]),
    ];
    assert_eq!(
        translate(&files, true),
        Err(TranslateError::Parse(ParseError::KeywordError { line_number: 3 }))
    );
    let files = vec![source("A", &["add"]), source("B", &["", "goto 7"])];
    assert_eq!(
        translate(&files, false),
        Err(TranslateError::Parse(ParseError::ArgumentError {
            command_type: CommandCategory::ControlFlow,
            line_number: 2,
        }))
    );
}

#[test]
fn parse_errors_come_before_codegen_errors() {
    let files = vec![source("A", &["pop constant 1"]), source("B", &["push"])];
    assert_eq!(
        translate(&files, false),
        Err(TranslateError::Parse(ParseError::ArgumentError {
            command_type: CommandCategory::MemoryAccess,
            line_number: 1,
        }))
    );
}

#[test]
fn command_without_code_stops_the_translation() {
    let files = vec![source("A", &["push constant 1", "pop constant 1", "add"])];
    assert_eq!(translate(&files, false), Err(TranslateError::CodeGen(CodeGenError::InvalidSegment)));
    let files = vec![source("A", &["push pointer 0"])];
    assert_eq!(translate(&files, true), Err(TranslateError::CodeGen(CodeGenError::InvalidSegment)));
}

#[test]
fn translation_steps() {
    let tokenizer = Tokenizer::from(default_ruleset());
    let lines = vec![String::from("push constant 1"), String::from(""), String::from("neg")];
    let tokens = tokenize_lines(&tokenizer, &lines);
    assert_eq!(tokens.len(), 3);
    assert_eq!(tokens[0].len(), 3);
    assert_eq!(tokens[1].len(), 0);
    assert_eq!(tokens[2][0].token_type, TokenType::Negate);
    let file = source("F", &["push constant 1", "", "neg"]);
    let commands = parse_file(&tokenizer, &file).unwrap();
    assert_eq!(
        commands,
        vec![
            Command::Push {
                segment: String::from("constant"),
                index: 1,
                class_name: String::from("F"),
            },
            Command::Arithmetic(TokenType::Negate),
        ]
    );
    let both = parse_program(&tokenizer, &vec![file, source("G", &["return"])]).unwrap();
    assert_eq!(both.len(), 3);
    assert_eq!(both[2], Command::Return);
    let mut table = SymbolTable::new();
    table.load_starting_table();
    let mut writer = AsmWriter::from(table);
    let text = generate(&mut writer, commands).unwrap();
    assert_eq!(
        text,
        "//Command #0\n@1\nD=A\n@SP\nA=M\nM=D\n@SP\nM=M+1\n//Command #1\n@SP\nAM=M-1\nD=M\nD=-D\n@SP\nA=M\nM=D\n@SP\nM=M+1\n"
    );
    assert_eq!(writer.line_count(), 2);
}

#[test]
fn every_line_of_the_output_is_an_instruction() {
    let lines = [
        "push constant 7",
        "push local 1",
        "pop static 3",
        "eq",
        "call Foo 2",
        "function Foo 2",
        "if-goto end",
        "label end",
        "return",
    ];
    let text = translate(&vec![source("Main", &lines)], true).unwrap();
    assert!(text.ends_with('\n'));
    for line in text.lines() {
        let shape = line.starts_with("//")
            || (line.starts_with('@') && line.len() > 1)
            || (line.starts_with('(') && line.ends_with(')'))
            || line.contains('=')
            || line.contains(';');
        assert!(shape, "{}", line);
    }
}
