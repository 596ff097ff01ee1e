//! The code generator: it turns each command into assembly text. Two
//! counters make the labels it invents unique: one numbers the comparisons,
//! the other the call sites.

use vstd::prelude::*;
use crate::decimal::{
    decimal,
    decimal_string,
    is_digit,
    lemma_decimal_digits,
    lemma_decimal_injective,
};
use crate::parser::{Command, CommandView};
use crate::symbol_table::{Address, AddressView, SymbolTable};
use crate::tokenizer::TokenType;

verus! {

/// The words that a call puts on the stack before it jumps: the return
/// address and the caller's four segment pointers. A return finds the return
/// address that many words below the frame.
pub const FRAME_SIZE: u16 = 5;

/// The address at which the stack starts.
pub const STACK_BASE: u16 = 256;

/// Why a command has no code.
#[derive(Debug, PartialEq, Eq, Clone, Copy, Structural)]
pub enum CodeGenError {
    /// The segment is not in the table, or it is `constant` in a `pop`.
    InvalidSegment,
    /// The token kind in an arithmetic command is no operator.
    InvalidArithmetic,
}

/// The message of an error.
pub open spec fn error_text(error: CodeGenError) -> Seq<char> {
    match error {
        CodeGenError::InvalidSegment => "Invalid segment provided"@,
        CodeGenError::InvalidArithmetic => "Invalid arithmetic command"@,
    }
}

impl CodeGenError {
    /// The message of the error.
    pub fn message(&self) -> (text: String)
        ensures
            text@ == error_text(*self),
    {
        match self {
            CodeGenError::InvalidSegment => String::from_str("Invalid segment provided"),
            CodeGenError::InvalidArithmetic => String::from_str("Invalid arithmetic command"),
        }
    }
}

/// Pushes the value in register A.
pub open spec fn push_from_a_text() -> Seq<char> {
    "D=A\n@SP\nA=M\nM=D\n@SP\nM=M+1\n"@
}

/// Pushes the value in the cell that A points at.
pub open spec fn push_from_m_text() -> Seq<char> {
    "D=M\n@SP\nA=M\nM=D\n@SP\nM=M+1\n"@
}

/// Pushes the value in register D.
pub open spec fn push_from_d_text() -> Seq<char> {
    "@SP\nA=M\nM=D\n@SP\nM=M+1\n"@
}

/// Pops the top of the stack into register D.
pub open spec fn pop_to_d_text() -> Seq<char> {
    "@SP\nAM=M-1\nD=M\n"@
}

/// Steps down to the next value of the stack and leaves A pointing at it.
pub open spec fn peek_next_value_text() -> Seq<char> {
    "@SP\nAM=M-1\n"@
}

/// Stores D in the cell whose address is in R13.
pub open spec fn save_d_to_r13_segment_address_text() -> Seq<char> {
    "@R13\nA=M\nM=D\n"@
}

/// Loads into A the value of cell `index` of the segment whose pointer is in
/// the register `segment`.
pub open spec fn value_from_segment_to_a_text(segment: Seq<char>, index: u16) -> Seq<char> {
    "@"@ + segment + "\nD=M\n@"@ + decimal(index as nat) + "\nA=D+A\nA=M\n"@
}

/// Loads the constant `index` into A.
pub open spec fn constant_to_a_text(index: u16) -> Seq<char> {
    "@"@ + decimal(index as nat) + "\n"@
}

/// Stores in R13 the address of cell `index` of the segment whose pointer is
/// in the register `segment`.
pub open spec fn save_segment_addr_to_r13_text(segment: Seq<char>, index: u16) -> Seq<char> {
    "@"@ + segment + "\nD=M\n@"@ + decimal(index as nat) + "\nD=D+A\n@R13\nM=D\n"@
}

/// Pops the second operand into D and leaves A pointing at the first.
pub open spec fn operands_text() -> Seq<char> {
    pop_to_d_text() + peek_next_value_text()
}

/// A binary operator: both operands leave the stack, `compute` combines
/// them in D, and D is pushed.
pub open spec fn binary_text(compute: Seq<char>) -> Seq<char> {
    operands_text() + compute + push_from_d_text()
}

/// A unary operator: the operand is popped into D, `compute` changes D,
/// and D is pushed.
pub open spec fn unary_text(compute: Seq<char>) -> Seq<char> {
    pop_to_d_text() + compute + push_from_d_text()
}

/// The label that comparison number `n` jumps to where it holds.
pub open spec fn branch_label(n: nat) -> Seq<char> {
    "BRANCH"@ + decimal(n)
}

/// The label behind the code of comparison number `n`.
pub open spec fn branch_end_label(n: nat) -> Seq<char> {
    "BRANCH"@ + decimal(n) + "END"@
}

/// Comparison number `n`: the difference of the operands is tested with the
/// jump `jump`; all ones are pushed where it holds, zero where it does not.
pub open spec fn comparison_text(jump: Seq<char>, n: nat) -> Seq<char> {
    "D=M-D\n@"@ + branch_label(n) + "\nD;"@ + jump + "\nD=0\n@SP\nA=M\nM=D\n@SP\nM=M+1\n@"@
        + branch_end_label(n) + "\n0;JMP\n("@ + branch_label(n)
        + ")\nD=-1\n@SP\nA=M\nM=D\n@SP\nM=M+1\n("@ + branch_end_label(n) + ")\n"@
}

/// Whether `op` is one of the three comparisons.
pub open spec fn is_comparison(op: TokenType) -> bool {
    op == TokenType::Equal || op == TokenType::GreaterThan || op == TokenType::LessThan
}

/// The code of the operator `op`, where `branch` numbers the next comparison.
pub open spec fn arithmetic_text(op: TokenType, branch: nat) -> Result<Seq<char>, CodeGenError> {
    match op {
        TokenType::Add => Ok(binary_text("D=D+M\n"@)),
        TokenType::Subtract => Ok(binary_text("D=M-D\n"@)),
        TokenType::And => Ok(binary_text("D=D&M\n"@)),
        TokenType::Or => Ok(binary_text("D=D|M\n"@)),
        TokenType::Not => Ok(unary_text("D=!D\n"@)),
        TokenType::Negate => Ok(unary_text("D=-D\n"@)),
        TokenType::Equal => Ok(operands_text() + comparison_text("JEQ"@, branch)),
        TokenType::GreaterThan => Ok(operands_text() + comparison_text("JGT"@, branch)),
        TokenType::LessThan => Ok(operands_text() + comparison_text("JLT"@, branch)),
        _ => Err(CodeGenError::InvalidArithmetic),
    }
}

/// The label of the static variable `index` of the file `class_name`.
pub open spec fn static_label(class_name: Seq<char>, index: u16) -> Seq<char> {
    class_name + "."@ + decimal(index as nat)
}

/// The code that pushes cell `index` of `segment`. `constant` pushes the
/// index itself; `static` reads the variable of the file `class_name`; any
/// other segment must be in `table`.
pub open spec fn push_text(
    table: Map<Seq<char>, AddressView>,
    segment: Seq<char>,
    index: u16,
    class_name: Seq<char>,
) -> Result<Seq<char>, CodeGenError> {
    if segment == "constant"@ {
        Ok(constant_to_a_text(index) + push_from_a_text())
    } else if segment == "static"@ {
        Ok("@"@ + static_label(class_name, index) + "\nA=M\n"@ + push_from_a_text())
    } else if table.contains_key(segment) {
        match table[segment] {
            AddressView::Relative(base) => Ok(
                value_from_segment_to_a_text(base, index) + push_from_a_text(),
            ),
            AddressView::Absolute(base) => Ok(
                "@"@ + decimal((base + index) as nat) + "\nA=M\n"@ + push_from_a_text(),
            ),
        }
    } else {
        Err(CodeGenError::InvalidSegment)
    }
}

/// The code that pops the top of the stack into cell `index` of `segment`.
/// `constant` cannot be popped to; `static` writes the variable of the file
/// `class_name`; any other segment must be in `table`.
pub open spec fn pop_text(
    table: Map<Seq<char>, AddressView>,
    segment: Seq<char>,
    index: u16,
    class_name: Seq<char>,
) -> Result<Seq<char>, CodeGenError> {
    if segment == "constant"@ {
        Err(CodeGenError::InvalidSegment)
    } else if segment == "static"@ {
        Ok(pop_to_d_text() + "@"@ + static_label(class_name, index) + "\nM=D\n"@)
    } else if table.contains_key(segment) {
        match table[segment] {
            AddressView::Relative(base) => Ok(
                save_segment_addr_to_r13_text(base, index) + pop_to_d_text()
                    + save_d_to_r13_segment_address_text(),
            ),
            AddressView::Absolute(base) => Ok(
                pop_to_d_text() + "@"@ + decimal((base + index) as nat) + "\nM=D\n"@,
            ),
        }
    } else {
        Err(CodeGenError::InvalidSegment)
    }
}

/// A label definition.
pub open spec fn label_text(label: Seq<char>) -> Seq<char> {
    "("@ + label + ")\n"@
}

/// An unconditional jump.
pub open spec fn goto_text(label: Seq<char>) -> Seq<char> {
    "@"@ + label + "\n0;JMP\n"@
}

/// Pops the top of the stack and jumps where it is negative.
pub open spec fn if_text(label: Seq<char>) -> Seq<char> {
    pop_to_d_text() + "@"@ + label + "\nD;JLT\n"@
}

/// The label to which call site number `site` of the function `symbol`
/// returns.
pub open spec fn return_label(symbol: Seq<char>, site: nat) -> Seq<char> {
    "RET-"@ + symbol + "$"@ + decimal(site)
}

/// The code of call site number `site`: it pushes the return address and the
/// caller's `LCL`, `ARG`, `THIS` and `THAT`, sets `ARG` to the first of the
/// `nargs` arguments and `LCL` to the top of the stack, jumps to `symbol`,
/// and defines the return address.
pub open spec fn call_text(symbol: Seq<char>, nargs: u16, site: nat) -> Seq<char> {
    "@"@ + return_label(symbol, site) + "\n"@ + push_from_a_text() + "@LCL\n"@ + push_from_m_text()
        + "@ARG\n"@ + push_from_m_text() + "@THIS\n"@ + push_from_m_text() + "@THAT\n"@
        + push_from_m_text() + "@SP\nD=M\n@"@ + decimal((nargs + FRAME_SIZE) as nat)
        + "\nD=D-A\n@ARG\nM=D\n@SP\nD=M\n@LCL\nM=D\n"@ + goto_text(symbol) + "("@ + return_label(
        symbol,
        site,
    ) + ")\n"@
}

/// `text` written `n` times.
pub open spec fn repeat(text: Seq<char>, n: nat) -> Seq<char>
    decreases n,
{
    if n == 0 {
        Seq::empty()
    } else {
        repeat(text, (n - 1) as nat) + text
    }
}

/// The code that pushes the constant zero.
pub open spec fn push_zero_text() -> Seq<char> {
    constant_to_a_text(0) + push_from_a_text()
}

/// The entry of the function `symbol`: its label, then one zero pushed for
/// each of its `nvars` local variables.
pub open spec fn function_text(symbol: Seq<char>, nvars: u16) -> Seq<char> {
    label_text(symbol) + repeat(push_zero_text(), nvars as nat)
}

/// Keeps the frame pointer in R14 and the return address, which lies
/// `FRAME_SIZE` words below it, in R15.
pub open spec fn save_frame_text() -> Seq<char> {
    "@LCL\nD=M\n@R14\nM=D\n@"@ + decimal(FRAME_SIZE as nat) + "\nA=D-A\nD=M\n@R15\nM=D\n"@
}

/// Sets the stack pointer behind the returned value, restores the caller's
/// `THAT`, `THIS`, `ARG` and `LCL` from below the frame pointer (the reverse
/// of the order in which a call pushes them), and jumps to the return address.
pub open spec fn restore_frame_text() -> Seq<char> {
    "@ARG\nD=M+1\n@SP\nM=D\n@R14\nAM=M-1\nD=M\n@THAT\nM=D\n@R14\nAM=M-1\nD=M\n@THIS\nM=D\n@R14\nAM=M-1\nD=M\n@ARG\nM=D\n@R14\nAM=M-1\nD=M\n@LCL\nM=D\n@R15\nA=M\n0;JMP\n"@
}

/// The code of a return: the frame is saved, the returned value is popped
/// into the first cell of `argument`, and the caller's frame is restored.
pub open spec fn return_text(table: Map<Seq<char>, AddressView>) -> Result<
    Seq<char>,
    CodeGenError,
> {
    match pop_text(table, "argument"@, 0, Seq::empty()) {
        Ok(pop) => Ok(save_frame_text() + pop + restore_frame_text()),
        Err(error) => Err(error),
    }
}

/// What an `AsmWriter` holds, as a mathematical value: the number of
/// commands written, the number of comparisons written, the number of call
/// sites written, and the table of segments.
pub struct WriterView {
    pub line_count: nat,
    pub branch_count: nat,
    pub call_count: nat,
    pub table: Map<Seq<char>, AddressView>,
}

/// The code of `command` in the state `state`, without the comment in front.
pub open spec fn command_body(state: WriterView, command: CommandView) -> Result<
    Seq<char>,
    CodeGenError,
> {
    match command {
        CommandView::Push { segment, index, class_name } => push_text(
            state.table,
            segment,
            index,
            class_name,
        ),
        CommandView::Pop { segment, index, class_name } => pop_text(
            state.table,
            segment,
            index,
            class_name,
        ),
        CommandView::Arithmetic(op) => arithmetic_text(op, state.branch_count),
        CommandView::If(label) => Ok(if_text(label)),
        CommandView::Goto(label) => Ok(goto_text(label)),
        CommandView::Label(label) => Ok(label_text(label)),
        CommandView::Call { symbol, nargs } => Ok(call_text(symbol, nargs, state.call_count)),
        CommandView::Function { symbol, nvars } => Ok(function_text(symbol, nvars)),
        CommandView::Return => return_text(state.table),
    }
}

/// The comment in front of the code of command number `n`.
pub open spec fn command_header(n: nat) -> Seq<char> {
    "//Command #"@ + decimal(n) + "\n"@
}

/// What writing `command` in the state `state` gives: the comment with the
/// command's number, then its code.
pub open spec fn command_text(state: WriterView, command: CommandView) -> Result<
    Seq<char>,
    CodeGenError,
> {
    match command_body(state, command) {
        Ok(body) => Ok(command_header(state.line_count) + body),
        Err(error) => Err(error),
    }
}

/// The state after `command` was written in the state `state`: one more
/// command; one more comparison where it is one, one more call site where it
/// is a call.
pub open spec fn state_after(state: WriterView, command: CommandView) -> WriterView {
    WriterView {
        line_count: state.line_count + 1,
        branch_count: match command {
            CommandView::Arithmetic(op) => if is_comparison(op) {
                state.branch_count + 1
            } else {
                state.branch_count
            },
            _ => state.branch_count,
        },
        call_count: match command {
            CommandView::Call { .. } => state.call_count + 1,
            _ => state.call_count,
        },
        table: state.table,
    }
}

/// The prologue: it sets the stack pointer to `STACK_BASE` and calls
/// `Sys.init` without arguments, from call site number `site`.
pub open spec fn init_text(site: nat) -> Seq<char> {
    "@"@ + decimal(STACK_BASE as nat) + "\nD=A\n@SP\nM=D\n"@ + call_text("Sys.init"@, 0, site)
}

/// Whether each counter of `state` can still be raised.
pub open spec fn has_room(state: WriterView) -> bool {
    &&& state.line_count < u128::MAX
    &&& state.branch_count < u128::MAX
    &&& state.call_count < u128::MAX
}

/// The text of a result that holds a string.
pub open spec fn text_result(result: Result<String, CodeGenError>) -> Result<
    Seq<char>,
    CodeGenError,
> {
    match result {
        Ok(text) => Ok(text@),
        Err(error) => Err(error),
    }
}

/// Whether `text` reads `word`.
fn reads(text: &String, word: &str) -> (same: bool)
    ensures
        same == (text@ == word@),
{
    *text == word.to_owned()
}

/// The code generator: the table of segments and the three counters.
#[derive(Debug)]
pub struct AsmWriter {
    line_count: u128,
    branch_count: u128,
    call_count: u128,
    symbol_table: SymbolTable,
}

impl View for AsmWriter {
    type V = WriterView;

    closed spec fn view(&self) -> WriterView {
        WriterView {
            line_count: self.line_count as nat,
            branch_count: self.branch_count as nat,
            call_count: self.call_count as nat,
            table: self.symbol_table@,
        }
    }
}

impl AsmWriter {
    /// A writer with the table `symbol_table` that has written nothing.
    pub fn from(symbol_table: SymbolTable) -> (writer: AsmWriter)
        ensures
            writer@ == (WriterView {
                line_count: 0,
                branch_count: 0,
                call_count: 0,
                table: symbol_table@,
            }),
    {
        AsmWriter { line_count: 0, branch_count: 0, call_count: 0, symbol_table }
    }

    /// The number of commands written.
    pub fn line_count(&self) -> (count: u128)
        ensures
            count == self@.line_count,
    {
        self.line_count
    }

    /// The number of comparisons written.
    pub fn branch_count(&self) -> (count: u128)
        ensures
            count == self@.branch_count,
    {
        self.branch_count
    }

    /// The number of call sites written.
    pub fn call_count(&self) -> (count: u128)
        ensures
            count == self@.call_count,
    {
        self.call_count
    }

    /// Writes the prologue, which is the first call site. Never fails.
    pub fn write_init(&mut self) -> (result: Result<String, CodeGenError>)
        requires
            old(self)@.call_count < u128::MAX,
        ensures
            text_result(result) == Ok::<Seq<char>, CodeGenError>(init_text(old(self)@.call_count)),
            final(self)@ == (WriterView {
                call_count: old(self)@.call_count + 1,
                ..old(self)@
            }),
    {
        let mut out = String::from_str("@");
        out.append(decimal_string(STACK_BASE as u128).as_str());
        out.append("\nD=A\n@SP\nM=D\n");
        match self.write_call(String::from_str("Sys.init"), 0) {
            Ok(call) => {
                out.append(call.as_str());
                Ok(out)
            },
            Err(error) => Err(error),
        }
    }

    /// Writes `command`: a comment with its number, then its code. Where the
    /// command has no code the writer stays as it was.
    pub fn write_command(&mut self, command: Command) -> (result: Result<String, CodeGenError>)
        requires
            has_room(old(self)@),
        ensures
            text_result(result) == command_text(old(self)@, command@),
            final(self)@ == (if result is Ok {
                state_after(old(self)@, command@)
            } else {
                old(self)@
            }),
    {
        let mut out = String::from_str("//Command #");
        out.append(decimal_string(self.line_count).as_str());
        out.append("\n");
        let written = match command {
            Command::Push { segment, index, class_name } => self.write_push(
                segment,
                index,
                class_name,
            ),
            Command::Pop { segment, index, class_name } => self.write_pop(
                segment,
                index,
                class_name,
            ),
            Command::Arithmetic(token_type) => self.write_arithmetic(token_type),
            Command::If(label) => self.write_if(label),
            Command::Goto(label) => self.write_goto(label),
            Command::Label(label) => self.write_label(label),
            Command::Call { symbol, nargs } => self.write_call(symbol, nargs),
            Command::Function { symbol, nvars } => self.write_function(symbol, nvars),
            Command::Return => self.write_return(),
        };
        match written {
            Ok(body) => {
                self.line_count = self.line_count + 1;
                out.append(body.as_str());
                Ok(out)
            },
            Err(error) => Err(error),
        }
    }

    /// The code that pushes cell `index` of `segment`.
    pub fn write_push(&self, segment: String, index: u16, class_name: String) -> (result: Result<
        String,
        CodeGenError,
    >)
        ensures
            text_result(result) == push_text(self@.table, segment@, index, class_name@),
    {
        if reads(&segment, "constant") {
            let mut out = AsmWriter::constant_to_a(index);
            out.append(AsmWriter::push_from_a().as_str());
            Ok(out)
        } else if reads(&segment, "static") {
            let mut label = class_name;
            label.append(".");
            label.append(decimal_string(index as u128).as_str());
            let mut out = String::from_str("@");
            out.append(label.as_str());
            out.append("\nA=M\n");
            out.append(AsmWriter::push_from_a().as_str());
            Ok(out)
        } else {
            match self.symbol_table.get_address(segment.as_str()) {
                Some(address) => match *address {
                    Address::Relative(base) => {
                        let mut out = AsmWriter::value_from_segment_to_a(base, index);
                        out.append(AsmWriter::push_from_a().as_str());
                        Ok(out)
                    },
                    Address::Absolute(base) => {
                        let mut out = String::from_str("@");
                        out.append(decimal_string(base as u128 + index as u128).as_str());
                        out.append("\nA=M\n");
                        out.append(AsmWriter::push_from_a().as_str());
                        Ok(out)
                    },
                },
                None => Err(CodeGenError::InvalidSegment),
            }
        }
    }

    /// The code that pops the top of the stack into cell `index` of `segment`.
    pub fn write_pop(&self, segment: String, index: u16, class_name: String) -> (result: Result<
        String,
        CodeGenError,
    >)
        ensures
            text_result(result) == pop_text(self@.table, segment@, index, class_name@),
    {
        if reads(&segment, "constant") {
            Err(CodeGenError::InvalidSegment)
        } else if reads(&segment, "static") {
            let mut label = class_name;
            label.append(".");
            label.append(decimal_string(index as u128).as_str());
            let mut out = AsmWriter::write_pop_to_d();
            out.append("@");
            out.append(label.as_str());
            out.append("\nM=D\n");
            Ok(out)
        } else {
            match self.symbol_table.get_address(segment.as_str()) {
                Some(address) => match *address {
                    Address::Relative(base) => {
                        let mut out = AsmWriter::save_segment_addr_to_r13(base, index);
                        out.append(AsmWriter::write_pop_to_d().as_str());
                        out.append(AsmWriter::save_d_to_r13_segment_address().as_str());
                        Ok(out)
                    },
                    Address::Absolute(base) => {
                        let mut out = AsmWriter::write_pop_to_d();
                        out.append("@");
                        out.append(decimal_string(base as u128 + index as u128).as_str());
                        out.append("\nM=D\n");
                        Ok(out)
                    },
                },
                None => Err(CodeGenError::InvalidSegment),
            }
        }
    }

    /// The code of the operator `token_type`. A comparison takes the next
    /// branch number.
    pub fn write_arithmetic(&mut self, token_type: TokenType) -> (result: Result<
        String,
        CodeGenError,
    >)
        requires
            old(self)@.branch_count < u128::MAX,
        ensures
            text_result(result) == arithmetic_text(token_type, old(self)@.branch_count),
            final(self)@ == (WriterView {
                branch_count: if is_comparison(token_type) {
                    old(self)@.branch_count + 1
                } else {
                    old(self)@.branch_count
                },
                ..old(self)@
            }),
    {
        match token_type {
            TokenType::Add => Ok(self.add()),
            TokenType::Subtract => Ok(self.subtract()),
            TokenType::And => Ok(self.and()),
            TokenType::Or => Ok(self.or()),
            TokenType::Not => Ok(self.not()),
            TokenType::Negate => Ok(self.negate()),
            TokenType::Equal => Ok(self.equal()),
            TokenType::GreaterThan => Ok(self.greater_than()),
            TokenType::LessThan => Ok(self.less_than()),
            _ => Err(CodeGenError::InvalidArithmetic),
        }
    }

    /// The code of a call of `symbol` with `nargs` arguments. It takes the
    /// next call site number. Never fails.
    pub fn write_call(&mut self, symbol: String, nargs: u16) -> (result: Result<
        String,
        CodeGenError,
    >)
        requires
            old(self)@.call_count < u128::MAX,
        ensures
            text_result(result) == Ok::<Seq<char>, CodeGenError>(
                call_text(symbol@, nargs, old(self)@.call_count),
            ),
            final(self)@ == (WriterView {
                call_count: old(self)@.call_count + 1,
                ..old(self)@
            }),
    {
        let mut label = String::from_str("RET-");
        label.append(symbol.as_str());
        label.append("$");
        label.append(decimal_string(self.call_count).as_str());
        let mut jump = String::from_str("@");
        jump.append(symbol.as_str());
        jump.append("\n0;JMP\n");
        let push_m = AsmWriter::push_from_m();
        let mut out = String::from_str("@");
        out.append(label.as_str());
        out.append("\n");
        out.append(AsmWriter::push_from_a().as_str());
        out.append("@LCL\n");
        out.append(push_m.as_str());
        out.append("@ARG\n");
        out.append(push_m.as_str());
        out.append("@THIS\n");
        out.append(push_m.as_str());
        out.append("@THAT\n");
        out.append(push_m.as_str());
        out.append("@SP\nD=M\n@");
        out.append(decimal_string(nargs as u128 + FRAME_SIZE as u128).as_str());
        out.append("\nD=D-A\n@ARG\nM=D\n@SP\nD=M\n@LCL\nM=D\n");
        out.append(jump.as_str());
        out.append("(");
        out.append(label.as_str());
        out.append(")\n");
        self.call_count = self.call_count + 1;
        Ok(out)
    }

    /// The entry of the function `symbol` with `nvars` local variables.
    /// Never fails.
    pub fn write_function(&self, symbol: String, nvars: u16) -> (result: Result<
        String,
        CodeGenError,
    >)
        ensures
            text_result(result) == Ok::<Seq<char>, CodeGenError>(function_text(symbol@, nvars)),
    {
        let mut zero = AsmWriter::constant_to_a(0);
        zero.append(AsmWriter::push_from_a().as_str());
        let mut out = String::from_str("(");
        out.append(symbol.as_str());
        out.append(")\n");
        let mut written: u16 = 0;
        assert(out@ =~= label_text(symbol@) + repeat(push_zero_text(), 0));
        while written < nvars
            invariant
                written <= nvars,
                zero@ == push_zero_text(),
                out@ == label_text(symbol@) + repeat(push_zero_text(), written as nat),
            decreases nvars - written,
        {
            out.append(zero.as_str());
            written = written + 1;
        }
        Ok(out)
    }

    /// The code of a return. It fails where the table has no segment
    /// `argument`.
    pub fn write_return(&self) -> (result: Result<String, CodeGenError>)
        ensures
            text_result(result) == return_text(self@.table),
    {
        match self.write_pop(String::from_str("argument"), 0, String::new()) {
            Ok(pop) => {
                let mut out = String::from_str("@LCL\nD=M\n@R14\nM=D\n@");
                out.append(decimal_string(FRAME_SIZE as u128).as_str());
                out.append("\nA=D-A\nD=M\n@R15\nM=D\n");
                out.append(pop.as_str());
                out.append(
                    "@ARG\nD=M+1\n@SP\nM=D\n@R14\nAM=M-1\nD=M\n@THAT\nM=D\n@R14\nAM=M-1\nD=M\n@THIS\nM=D\n@R14\nAM=M-1\nD=M\n@ARG\nM=D\n@R14\nAM=M-1\nD=M\n@LCL\nM=D\n@R15\nA=M\n0;JMP\n",
                );
                Ok(out)
            },
            Err(error) => Err(error),
        }
    }

    /// The definition of the label `label`. Never fails.
    pub fn write_label(&self, label: String) -> (result: Result<String, CodeGenError>)
        ensures
            text_result(result) == Ok::<Seq<char>, CodeGenError>(label_text(label@)),
    {
        let mut out = String::from_str("(");
        out.append(label.as_str());
        out.append(")\n");
        Ok(out)
    }

    /// The jump to the label `label`. Never fails.
    pub fn write_goto(&self, label: String) -> (result: Result<String, CodeGenError>)
        ensures
            text_result(result) == Ok::<Seq<char>, CodeGenError>(goto_text(label@)),
    {
        let mut out = String::from_str("@");
        out.append(label.as_str());
        out.append("\n0;JMP\n");
        Ok(out)
    }

    /// The jump to the label `label` that is taken where the popped value is
    /// negative. Never fails.
    pub fn write_if(&mut self, label: String) -> (result: Result<String, CodeGenError>)
        ensures
            text_result(result) == Ok::<Seq<char>, CodeGenError>(if_text(label@)),
            final(self)@ == old(self)@,
    {
        let mut out = AsmWriter::write_pop_to_d();
        out.append("@");
        out.append(label.as_str());
        out.append("\nD;JLT\n");
        Ok(out)
    }

    /// Pops the second operand into D and leaves A pointing at the first.
    pub fn get_operands() -> (out: String)
        ensures
            out@ == operands_text(),
    {
        let mut out = AsmWriter::write_pop_to_d();
        out.append(AsmWriter::peek_next_value().as_str());
        out
    }

    /// The comparison for equality, with the next branch number.
    pub fn equal(&mut self) -> (out: String)
        requires
            old(self)@.branch_count < u128::MAX,
        ensures
            out@ == operands_text() + comparison_text("JEQ"@, old(self)@.branch_count),
            final(self)@ == (WriterView {
                branch_count: old(self)@.branch_count + 1,
                ..old(self)@
            }),
    {
        let mut out = AsmWriter::get_operands();
        out.append(self.write_comparison("JEQ").as_str());
        self.branch_count = self.branch_count + 1;
        out
    }

    /// The comparison for greater, with the next branch number.
    pub fn greater_than(&mut self) -> (out: String)
        requires
            old(self)@.branch_count < u128::MAX,
        ensures
            out@ == operands_text() + comparison_text("JGT"@, old(self)@.branch_count),
            final(self)@ == (WriterView {
                branch_count: old(self)@.branch_count + 1,
                ..old(self)@
            }),
    {
        let mut out = AsmWriter::get_operands();
        out.append(self.write_comparison("JGT").as_str());
        self.branch_count = self.branch_count + 1;
        out
    }

    /// The comparison for less, with the next branch number.
    pub fn less_than(&mut self) -> (out: String)
        requires
            old(self)@.branch_count < u128::MAX,
        ensures
            out@ == operands_text() + comparison_text("JLT"@, old(self)@.branch_count),
            final(self)@ == (WriterView {
                branch_count: old(self)@.branch_count + 1,
                ..old(self)@
            }),
    {
        let mut out = AsmWriter::get_operands();
        out.append(self.write_comparison("JLT").as_str());
        self.branch_count = self.branch_count + 1;
        out
    }

    /// The test with the jump `instruction` under the next branch number,
    /// which it does not take.
    pub fn write_comparison(&self, instruction: &str) -> (out: String)
        ensures
            out@ == comparison_text(instruction@, self@.branch_count),
    {
        let mut label = String::from_str("BRANCH");
        label.append(decimal_string(self.branch_count).as_str());
        let mut end = String::from_str("BRANCH");
        end.append(decimal_string(self.branch_count).as_str());
        end.append("END");
        let mut out = String::from_str("D=M-D\n@");
        out.append(label.as_str());
        out.append("\nD;");
        out.append(instruction);
        out.append("\nD=0\n@SP\nA=M\nM=D\n@SP\nM=M+1\n@");
        out.append(end.as_str());
        out.append("\n0;JMP\n(");
        out.append(label.as_str());
        out.append(")\nD=-1\n@SP\nA=M\nM=D\n@SP\nM=M+1\n(");
        out.append(end.as_str());
        out.append(")\n");
        out
    }

    /// The sum of the two values on top of the stack.
    pub fn add(&self) -> (out: String)
        ensures
            out@ == binary_text("D=D+M\n"@),
    {
        let mut out = AsmWriter::get_operands();
        out.append("D=D+M\n");
        out.append(AsmWriter::push_from_d().as_str());
        out
    }

    /// The bitwise and of the two values on top of the stack.
    pub fn and(&self) -> (out: String)
        ensures
            out@ == binary_text("D=D&M\n"@),
    {
        let mut out = AsmWriter::get_operands();
        out.append("D=D&M\n");
        out.append(AsmWriter::push_from_d().as_str());
        out
    }

    /// The bitwise or of the two values on top of the stack.
    pub fn or(&self) -> (out: String)
        ensures
            out@ == binary_text("D=D|M\n"@),
    {
        let mut out = AsmWriter::get_operands();
        out.append("D=D|M\n");
        out.append(AsmWriter::push_from_d().as_str());
        out
    }

    /// The difference of the two values on top of the stack: the first
    /// pushed less the second.
    pub fn subtract(&self) -> (out: String)
        ensures
            out@ == binary_text("D=M-D\n"@),
    {
        let mut out = AsmWriter::get_operands();
        out.append("D=M-D\n");
        out.append(AsmWriter::push_from_d().as_str());
        out
    }

    /// The bitwise complement of the value on top of the stack.
    pub fn not(&self) -> (out: String)
        ensures
            out@ == unary_text("D=!D\n"@),
    {
        let mut out = AsmWriter::write_pop_to_d();
        out.append("D=!D\n");
        out.append(AsmWriter::push_from_d().as_str());
        out
    }

    /// The negative of the value on top of the stack.
    pub fn negate(&self) -> (out: String)
        ensures
            out@ == unary_text("D=-D\n"@),
    {
        let mut out = AsmWriter::write_pop_to_d();
        out.append("D=-D\n");
        out.append(AsmWriter::push_from_d().as_str());
        out
    }

    /// Loads into A the value of cell `index` of the segment whose pointer
    /// is in the register `segment`.
    pub fn value_from_segment_to_a(segment: &str, index: u16) -> (out: String)
        ensures
            out@ == value_from_segment_to_a_text(segment@, index),
    {
        let mut out = String::from_str("@");
        out.append(segment);
        out.append("\nD=M\n@");
        out.append(decimal_string(index as u128).as_str());
        out.append("\nA=D+A\nA=M\n");
        out
    }

    /// Loads the constant `index` into A.
    pub fn constant_to_a(index: u16) -> (out: String)
        ensures
            out@ == constant_to_a_text(index),
    {
        let mut out = String::from_str("@");
        out.append(decimal_string(index as u128).as_str());
        out.append("\n");
        out
    }

    /// Stores in R13 the address of cell `index` of the segment whose
    /// pointer is in the register `segment`.
    pub fn save_segment_addr_to_r13(segment: &str, index: u16) -> (out: String)
        ensures
            out@ == save_segment_addr_to_r13_text(segment@, index),
    {
        let mut out = String::from_str("@");
        out.append(segment);
        out.append("\nD=M\n@");
        out.append(decimal_string(index as u128).as_str());
        out.append("\nD=D+A\n@R13\nM=D\n");
        out
    }

    /// Stores D in the cell whose address is in R13.
    pub fn save_d_to_r13_segment_address() -> (out: String)
        ensures
            out@ == save_d_to_r13_segment_address_text(),
    {
        String::from_str("@R13\nA=M\nM=D\n")
    }

    /// Pushes the value in register A.
    pub fn push_from_a() -> (out: String)
        ensures
            out@ == push_from_a_text(),
    {
        String::from_str("D=A\n@SP\nA=M\nM=D\n@SP\nM=M+1\n")
    }

    /// Pushes the value in the cell that A points at.
    pub fn push_from_m() -> (out: String)
        ensures
            out@ == push_from_m_text(),
    {
        String::from_str("D=M\n@SP\nA=M\nM=D\n@SP\nM=M+1\n")
    }

    /// Pushes the value in register D.
    pub fn push_from_d() -> (out: String)
        ensures
            out@ == push_from_d_text(),
    {
        String::from_str("@SP\nA=M\nM=D\n@SP\nM=M+1\n")
    }

    /// Pops the top of the stack into register D.
    pub fn write_pop_to_d() -> (out: String)
        ensures
            out@ == pop_to_d_text(),
    {
        String::from_str("@SP\nAM=M-1\nD=M\n")
    }

    /// Steps down to the next value of the stack and leaves A pointing at it.
    pub fn peek_next_value() -> (out: String)
        ensures
            out@ == peek_next_value_text(),
    {
        String::from_str("@SP\nAM=M-1\n")
    }
}

/// Texts that start alike and are equal end alike.
proof fn lemma_cancel_front(head: Seq<char>, first: Seq<char>, second: Seq<char>)
    requires
        head + first == head + second,
    ensures
        first == second,
{
    let whole = head + first;
    assert(whole.len() == head.len() + first.len());
    assert(whole.len() == head.len() + second.len());
    assert forall|i: int| 0 <= i < first.len() implies first[i] == second[i] by {
        assert(whole[head.len() + i] == first[i]);
        assert((head + second)[head.len() + i] == second[i]);
    }
    assert(first =~= second);
}

/// Texts that end alike and are equal start alike.
proof fn lemma_cancel_back(first: Seq<char>, second: Seq<char>, tail: Seq<char>)
    requires
        first + tail == second + tail,
    ensures
        first == second,
{
    let whole = first + tail;
    assert(whole.len() == first.len() + tail.len());
    assert(whole.len() == second.len() + tail.len());
    assert forall|i: int| 0 <= i < first.len() implies first[i] == second[i] by {
        assert(whole[i] == first[i]);
        assert((second + tail)[i] == second[i]);
    }
    assert(first =~= second);
}

/// Two comparisons with different numbers have different labels: neither
/// the labels they jump to nor their end labels are the same.
pub proof fn lemma_branch_labels_differ(a: nat, b: nat)
    requires
        a != b,
    ensures
        branch_label(a) != branch_label(b),
        branch_end_label(a) != branch_end_label(b),
{
    if branch_label(a) == branch_label(b) {
        lemma_cancel_front("BRANCH"@, decimal(a), decimal(b));
        lemma_decimal_injective(a, b);
    }
    if branch_end_label(a) == branch_end_label(b) {
        lemma_cancel_back("BRANCH"@ + decimal(a), "BRANCH"@ + decimal(b), "END"@);
        lemma_cancel_front("BRANCH"@, decimal(a), decimal(b));
        lemma_decimal_injective(a, b);
    }
}

/// No label that a comparison jumps to is the end label of a comparison:
/// the one ends in a digit, the other in a letter.
pub proof fn lemma_branch_label_is_no_end_label(a: nat, b: nat)
    ensures
        branch_label(a) != branch_end_label(b),
{
    reveal_strlit("END");
    lemma_decimal_digits(a);
    assert(branch_label(a).last() == decimal(a).last());
    assert(is_digit(decimal(a).last()));
    assert(branch_end_label(b).last() == 'D');
}

/// Two call sites have different return labels, unless they are sites of
/// one function with one number. The mark in front of the number is no
/// digit, so a label shows where its number starts.
pub proof fn lemma_return_labels_differ(first: Seq<char>, a: nat, second: Seq<char>, b: nat)
    requires
        first != second || a != b,
    ensures
        return_label(first, a) != return_label(second, b),
{
    reveal_strlit("$");
    lemma_decimal_digits(a);
    lemma_decimal_digits(b);
    let left = return_label(first, a);
    let right = return_label(second, b);
    if left == right {
        let total = left.len() as int;
        let at_left = total - decimal(a).len() - 1;
        let at_right = total - decimal(b).len() - 1;
        assert(left[at_left] == '$');
        assert(right[at_right] == '$');
        if at_left < at_right {
            assert(is_digit(decimal(a)[at_right - at_left - 1]));
            assert(left[at_right] == decimal(a)[at_right - at_left - 1]);
        } else if at_right < at_left {
            assert(is_digit(decimal(b)[at_left - at_right - 1]));
            assert(right[at_left] == decimal(b)[at_left - at_right - 1]);
        } else {
            assert(left.skip(at_left + 1) =~= decimal(a));
            assert(right.skip(at_right + 1) =~= decimal(b));
            lemma_decimal_injective(a, b);
            lemma_cancel_back("RET-"@ + first + "$"@, "RET-"@ + second + "$"@, decimal(a));
            lemma_cancel_back("RET-"@ + first, "RET-"@ + second, "$"@);
            lemma_cancel_front("RET-"@, first, second);
        }
    }
}

/// What a command gives depends on the command, the counters and the table
/// alone: two writers that agree on these write the same text, or fail with
/// the same error, and are left in the same state.
pub proof fn lemma_same_state_same_text(first: WriterView, second: WriterView, command: CommandView)
    requires
        first.line_count == second.line_count,
        first.branch_count == second.branch_count,
        first.call_count == second.call_count,
        first.table =~= second.table,
    ensures
        command_text(first, command) == command_text(second, command),
        state_after(first, command) == state_after(second, command),
{
}

/// No table lets a command pop to `constant`.
pub proof fn lemma_pop_constant_is_invalid(state: WriterView, index: u16, class_name: Seq<char>)
    ensures
        command_text(state, CommandView::Pop { segment: "constant"@, index, class_name }) == Err::<
            Seq<char>,
            CodeGenError,
        >(CodeGenError::InvalidSegment),
{
}

/// A command fails in no other way than these: a `push` or `pop` names a
/// segment that is neither `constant` nor `static` nor in the table, a `pop`
/// names `constant`, a return finds no segment `argument` in the table, or
/// an arithmetic command holds a token kind that is no operator.
pub proof fn lemma_when_a_command_fails(state: WriterView, command: CommandView)
    ensures
        command_text(state, command) is Err <==> match command {
            CommandView::Push { segment, .. } => segment != "constant"@ && segment != "static"@
                && !state.table.contains_key(segment),
            CommandView::Pop { segment, .. } => segment == "constant"@ || (segment != "static"@
                && !state.table.contains_key(segment)),
            CommandView::Arithmetic(op) => !crate::parser::is_operator(op),
            CommandView::Return => !state.table.contains_key("argument"@),
            _ => false,
        },
{
    reveal_strlit("argument");
    reveal_strlit("constant");
    reveal_strlit("static");
    assert("argument"@[0] != "constant"@[0] && "argument"@[0] != "static"@[0]);
}

} // verus!
