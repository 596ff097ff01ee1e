//! The parser: it reads the tokens of one line at a time and gives the
//! command that the line holds, nothing for a blank line or a comment, or
//! the error that the line makes.

use vstd::prelude::*;
use crate::decimal::{decimal, decimal_string, numeral_u16, parse_u16};
use crate::tokenizer::{
    classify,
    lemma_scan_stops_at_comment,
    scan,
    token_views,
    MatchRuleView,
    Token,
    TokenList,
    TokenType,
    TokenView,
};

verus! {

/// One instruction of the stack language. `Push` and `Pop` carry the name of
/// the source file they come from, under which its static variables live.
#[derive(Debug, PartialEq)]
pub enum Command {
    Push { segment: String, index: u16, class_name: String },
    Pop { segment: String, index: u16, class_name: String },
    Arithmetic(TokenType),
    Goto(String),
    If(String),
    Label(String),
    Function { symbol: String, nvars: u16 },
    Call { symbol: String, nargs: u16 },
    Return,
}

/// What a `Command` holds, as a mathematical value.
pub enum CommandView {
    Push { segment: Seq<char>, index: u16, class_name: Seq<char> },
    Pop { segment: Seq<char>, index: u16, class_name: Seq<char> },
    Arithmetic(TokenType),
    Goto(Seq<char>),
    If(Seq<char>),
    Label(Seq<char>),
    Function { symbol: Seq<char>, nvars: u16 },
    Call { symbol: Seq<char>, nargs: u16 },
    Return,
}

impl View for Command {
    type V = CommandView;

    open spec fn view(&self) -> CommandView {
        match self {
            Command::Push { segment, index, class_name } => CommandView::Push {
                segment: segment@,
                index: *index,
                class_name: class_name@,
            },
            Command::Pop { segment, index, class_name } => CommandView::Pop {
                segment: segment@,
                index: *index,
                class_name: class_name@,
            },
            Command::Arithmetic(op) => CommandView::Arithmetic(*op),
            Command::Goto(name) => CommandView::Goto(name@),
            Command::If(name) => CommandView::If(name@),
            Command::Label(name) => CommandView::Label(name@),
            Command::Function { symbol, nvars } => CommandView::Function {
                symbol: symbol@,
                nvars: *nvars,
            },
            Command::Call { symbol, nargs } => CommandView::Call { symbol: symbol@, nargs: *nargs },
            Command::Return => CommandView::Return,
        }
    }
}

/// The families of command that take operands.
#[derive(Debug, PartialEq, Eq, Clone, Copy, Structural)]
pub enum CommandCategory {
    MemoryAccess,
    ControlFlow,
    Function,
}

/// Why a line is no command. `line_number` is the number of the line in its
/// file, counted from one, where the parser reads the lines it was made with.
#[derive(Debug, PartialEq, Eq, Clone, Copy, Structural)]
pub enum ParseError {
    /// The line does not start with the name of a command or operator.
    KeywordError { line_number: usize },
    /// An operand is missing or of the wrong kind.
    ArgumentError { command_type: CommandCategory, line_number: usize },
}

/// The name of a family of commands as it stands in a message.
pub open spec fn category_name(category: CommandCategory) -> Seq<char> {
    match category {
        CommandCategory::MemoryAccess => "Memory Access"@,
        CommandCategory::ControlFlow => "Control Flow"@,
        CommandCategory::Function => "Function"@,
    }
}

/// The message of an error.
pub open spec fn error_message(error: ParseError) -> Seq<char> {
    match error {
        ParseError::KeywordError { line_number } => "Expected keyword at line "@ + decimal(
            line_number as nat,
        ),
        ParseError::ArgumentError { command_type, line_number } => "Improper arguments for "@
            + category_name(command_type) + " command at line "@ + decimal(line_number as nat),
    }
}

impl CommandCategory {
    /// The name of the family as it stands in a message.
    pub fn name(&self) -> (name: &'static str)
        ensures
            name@ == category_name(*self),
    {
        match self {
            CommandCategory::MemoryAccess => "Memory Access",
            CommandCategory::ControlFlow => "Control Flow",
            CommandCategory::Function => "Function",
        }
    }
}

impl ParseError {
    /// The line that the error is about.
    pub fn line_number(&self) -> (line: usize)
        ensures
            line == match *self {
                ParseError::KeywordError { line_number } => line_number,
                ParseError::ArgumentError { line_number, .. } => line_number,
            },
    {
        match self {
            ParseError::KeywordError { line_number } => *line_number,
            ParseError::ArgumentError { line_number, .. } => *line_number,
        }
    }

    /// The message of the error.
    pub fn message(&self) -> (text: String)
        ensures
            text@ == error_message(*self),
    {
        match self {
            ParseError::KeywordError { line_number } => {
                let mut text = String::from_str("Expected keyword at line ");
                text.append(decimal_string(*line_number as u128).as_str());
                text
            },
            ParseError::ArgumentError { command_type, line_number } => {
                let mut text = String::from_str("Improper arguments for ");
                text.append(command_type.name());
                text.append(" command at line ");
                text.append(decimal_string(*line_number as u128).as_str());
                text
            },
        }
    }
}

/// Whether `kind` is one of the nine arithmetic and logical operators.
pub open spec fn is_operator(kind: TokenType) -> bool {
    match kind {
        TokenType::Add
        | TokenType::Subtract
        | TokenType::Negate
        | TokenType::Equal
        | TokenType::LessThan
        | TokenType::GreaterThan
        | TokenType::And
        | TokenType::Or
        | TokenType::Not => true,
        _ => false,
    }
}

/// The memory command that the keyword `c` makes of the operands `arg1` and
/// `arg2`: the first must be a symbol, the second an index that is a 16-bit
/// number, and `c` one of `push` and `pop`.
pub open spec fn mem_access_command(
    c: TokenView,
    arg1: TokenView,
    arg2: TokenView,
    class_name: Seq<char>,
) -> Option<CommandView> {
    if arg1.token_type == TokenType::Symbol && arg2.token_type == TokenType::Index {
        match (c.token_type, numeral_u16(arg2.token)) {
            (TokenType::Push, Some(index)) => Some(
                CommandView::Push { segment: arg1.token, index, class_name },
            ),
            (TokenType::Pop, Some(index)) => Some(
                CommandView::Pop { segment: arg1.token, index, class_name },
            ),
            _ => None,
        }
    } else {
        None
    }
}

/// The branching command that the keyword `c` makes of the operand `arg1`:
/// it must be a symbol, and `c` one of `label`, `goto` and `if-goto`.
pub open spec fn control_flow_command(c: TokenView, arg1: TokenView) -> Option<CommandView> {
    if arg1.token_type == TokenType::Symbol {
        match c.token_type {
            TokenType::Label => Some(CommandView::Label(arg1.token)),
            TokenType::Goto => Some(CommandView::Goto(arg1.token)),
            TokenType::If => Some(CommandView::If(arg1.token)),
            _ => None,
        }
    } else {
        None
    }
}

/// The command that the keyword `c` makes of the operands `arg1` and `arg2`:
/// the first must be a symbol, the second an index that is a 16-bit number,
/// and `c` one of `function` and `call`.
pub open spec fn function_command(c: TokenView, arg1: TokenView, arg2: TokenView) -> Option<
    CommandView,
> {
    if arg1.token_type == TokenType::Symbol && arg2.token_type == TokenType::Index {
        match (c.token_type, numeral_u16(arg2.token)) {
            (TokenType::Function, Some(nvars)) => Some(
                CommandView::Function { symbol: arg1.token, nvars },
            ),
            (TokenType::Call, Some(nargs)) => Some(CommandView::Call { symbol: arg1.token, nargs }),
            _ => None,
        }
    } else {
        None
    }
}

/// The operator command of the keyword `c`, where `c` is an operator.
pub open spec fn arithmetic_command(c: TokenView) -> Option<CommandView> {
    if is_operator(c.token_type) {
        Some(CommandView::Arithmetic(c.token_type))
    } else {
        None
    }
}

/// What the tokens of one line mean. A line without tokens and a line that
/// starts with a comment hold nothing. Any other line must start with a
/// keyword that names a command or an operator, followed by the operands of
/// that command; what follows the operands is not read.
pub open spec fn parse_tokens(tokens: Seq<TokenView>, class_name: Seq<char>, line_number: usize)
    -> Result<Option<CommandView>, ParseError> {
    if tokens.len() == 0 {
        Ok(None)
    } else if tokens[0].token_type == TokenType::Comment {
        Ok(None)
    } else if !tokens[0].is_keyword {
        Err(ParseError::KeywordError { line_number })
    } else {
        match tokens[0].token_type {
            TokenType::Push | TokenType::Pop => {
                if tokens.len() >= 3 && mem_access_command(
                    tokens[0],
                    tokens[1],
                    tokens[2],
                    class_name,
                ) is Some {
                    Ok(mem_access_command(tokens[0], tokens[1], tokens[2], class_name))
                } else {
                    Err(
                        ParseError::ArgumentError {
                            command_type: CommandCategory::MemoryAccess,
                            line_number,
                        },
                    )
                }
            },
            TokenType::Label | TokenType::If | TokenType::Goto => {
                if tokens.len() >= 2 && control_flow_command(tokens[0], tokens[1]) is Some {
                    Ok(control_flow_command(tokens[0], tokens[1]))
                } else {
                    Err(
                        ParseError::ArgumentError {
                            command_type: CommandCategory::ControlFlow,
                            line_number,
                        },
                    )
                }
            },
            TokenType::Function | TokenType::Call => {
                if tokens.len() >= 3 && function_command(tokens[0], tokens[1], tokens[2]) is Some {
                    Ok(function_command(tokens[0], tokens[1], tokens[2]))
                } else {
                    Err(
                        ParseError::ArgumentError {
                            command_type: CommandCategory::Function,
                            line_number,
                        },
                    )
                }
            },
            TokenType::Return => Ok(Some(CommandView::Return)),
            _ => {
                if arithmetic_command(tokens[0]) is Some {
                    Ok(arithmetic_command(tokens[0]))
                } else {
                    Err(ParseError::KeywordError { line_number })
                }
            },
        }
    }
}

/// The view of a command that may be missing.
pub open spec fn command_view(made: Option<Command>) -> Option<CommandView> {
    match made {
        Some(command) => Some(command@),
        None => None,
    }
}

/// The view of what parsing a line gives.
pub open spec fn parsed_view(result: Result<Option<Command>, ParseError>) -> Result<
    Option<CommandView>,
    ParseError,
> {
    match result {
        Ok(Some(command)) => Ok(Some(command@)),
        Ok(None) => Ok(None),
        Err(error) => Err(error),
    }
}

/// The views of the token lists of `lines`.
pub open spec fn line_views(lines: Seq<TokenList>) -> Seq<Seq<TokenView>> {
    lines.map_values(|line: TokenList| token_views(line@))
}

/// The lines of one source file and the place of the next line to read.
#[derive(Debug)]
pub struct Parser {
    tokens: Vec<TokenList>,
    next_command: usize,
    class_name: String,
}

/// What a `Parser` holds, as a mathematical value: the tokens of every line,
/// the number of lines read so far, and the name of the source file.
pub struct ParserView {
    pub lines: Seq<Seq<TokenView>>,
    pub cursor: nat,
    pub class_name: Seq<char>,
}

impl View for Parser {
    type V = ParserView;

    closed spec fn view(&self) -> ParserView {
        ParserView {
            lines: line_views(self.tokens@),
            cursor: self.next_command as nat,
            class_name: self.class_name@,
        }
    }
}

impl Parser {
    #[verifier::type_invariant]
    spec fn well_formed(&self) -> bool {
        self.next_command <= self.tokens.len()
    }

    /// A parser without lines and without a file name.
    pub fn new() -> (parser: Parser)
        ensures
            parser@ == (ParserView { lines: Seq::empty(), cursor: 0, class_name: Seq::empty() }),
    {
        let parser = Parser { tokens: Vec::new(), next_command: 0, class_name: String::new() };
        assert(line_views(parser.tokens@) =~= Seq::<Seq<TokenView>>::empty());
        parser
    }

    /// A parser at the first of the lines `tokens` of the file `class_name`.
    pub fn from(tokens: Vec<TokenList>, class_name: String) -> (parser: Parser)
        ensures
            parser@ == (ParserView {
                lines: line_views(tokens@),
                cursor: 0,
                class_name: class_name@,
            }),
    {
        Parser { tokens, next_command: 0, class_name }
    }

    /// Whether a line is left to read.
    pub fn has_more_commands(&self) -> (more: bool)
        ensures
            more == (self@.cursor < self@.lines.len()),
    {
        self.next_command < self.tokens.len()
    }

    /// Reads the next line and moves past it, whatever the line holds. The
    /// line number in an error counts from one.
    pub fn advance(&mut self) -> (result: Result<Option<Command>, ParseError>)
        requires
            old(self)@.cursor < old(self)@.lines.len(),
        ensures
            final(self)@ == (ParserView { cursor: old(self)@.cursor + 1, ..old(self)@ }),
            parsed_view(result) == parse_tokens(
                old(self)@.lines[old(self)@.cursor as int],
                old(self)@.class_name,
                (old(self)@.cursor + 1) as usize,
            ),
    {
        proof {
            use_type_invariant(&*self);
        }
        let line_number = self.next_command + 1;
        let result = Parser::parse_line(
            &self.tokens[self.next_command],
            &self.class_name,
            line_number,
        );
        self.next_command = line_number;
        result
    }

    /// What the line `token_list` holds. The parser stays where it is; the
    /// line number in an error is the number of lines read so far.
    pub fn parse(&mut self, token_list: TokenList) -> (result: Result<Option<Command>, ParseError>)
        ensures
            final(self)@ == old(self)@,
            parsed_view(result) == parse_tokens(
                token_views(token_list@),
                old(self)@.class_name,
                old(self)@.cursor as usize,
            ),
    {
        Parser::parse_line(&token_list, &self.class_name, self.next_command)
    }

    /// What the line `tokens` of the file `class_name` holds.
    pub fn parse_line(tokens: &TokenList, class_name: &String, line_number: usize) -> (result:
        Result<Option<Command>, ParseError>)
        ensures
            parsed_view(result) == parse_tokens(token_views(tokens@), class_name@, line_number),
    {
        if tokens.len() == 0 {
            return Ok(None);
        }
        let c = &tokens[0];
        if c.token_type == TokenType::Comment {
            return Ok(None);
        }
        if !c.is_keyword {
            return Err(ParseError::KeywordError { line_number });
        }
        match c.token_type {
            TokenType::Pop | TokenType::Push => {
                let made = if tokens.len() >= 3 {
                    Parser::mem_access_parse(c, &tokens[1], &tokens[2], class_name.clone())
                } else {
                    None
                };
                match made {
                    Some(command) => Ok(Some(command)),
                    None => Err(
                        ParseError::ArgumentError {
                            command_type: CommandCategory::MemoryAccess,
                            line_number,
                        },
                    ),
                }
            },
            TokenType::Label | TokenType::If | TokenType::Goto => {
                let made = if tokens.len() >= 2 {
                    Parser::control_flow_parse(c, &tokens[1])
                } else {
                    None
                };
                match made {
                    Some(command) => Ok(Some(command)),
                    None => Err(
                        ParseError::ArgumentError {
                            command_type: CommandCategory::ControlFlow,
                            line_number,
                        },
                    ),
                }
            },
            TokenType::Call | TokenType::Function => {
                let made = if tokens.len() >= 3 {
                    Parser::function_command_parse(c, &tokens[1], &tokens[2])
                } else {
                    None
                };
                match made {
                    Some(command) => Ok(Some(command)),
                    None => Err(
                        ParseError::ArgumentError {
                            command_type: CommandCategory::Function,
                            line_number,
                        },
                    ),
                }
            },
            TokenType::Return => Ok(Some(Command::Return)),
            _ => match Parser::arithmetic_parse(c) {
                Some(command) => Ok(Some(command)),
                None => Err(ParseError::KeywordError { line_number }),
            },
        }
    }

    /// The memory command that `c` makes of `arg1` and `arg2`.
    pub fn mem_access_parse(c: &Token, arg1: &Token, arg2: &Token, class_name: String) -> (made:
        Option<Command>)
        ensures
            command_view(made) == mem_access_command(
                c@,
                arg1@,
                arg2@,
                class_name@,
            ),
    {
        if arg1.token_type == TokenType::Symbol && arg2.token_type == TokenType::Index {
            match (c.token_type, parse_u16(arg2.token.as_str())) {
                (TokenType::Push, Some(index)) => Some(
                    Command::Push { segment: arg1.token.clone(), index, class_name },
                ),
                (TokenType::Pop, Some(index)) => Some(
                    Command::Pop { segment: arg1.token.clone(), index, class_name },
                ),
                _ => None,
            }
        } else {
            None
        }
    }

    /// The branching command that `c` makes of `arg1`.
    pub fn control_flow_parse(c: &Token, arg1: &Token) -> (made: Option<Command>)
        ensures
            command_view(made) == control_flow_command(c@, arg1@),
    {
        if arg1.token_type == TokenType::Symbol {
            match c.token_type {
                TokenType::Label => Some(Command::Label(arg1.token.clone())),
                TokenType::Goto => Some(Command::Goto(arg1.token.clone())),
                TokenType::If => Some(Command::If(arg1.token.clone())),
                _ => None,
            }
        } else {
            None
        }
    }

    /// The `function` or `call` command that `c` makes of `arg1` and `arg2`.
    pub fn function_command_parse(c: &Token, arg1: &Token, arg2: &Token) -> (made: Option<Command>)
        ensures
            command_view(made) == function_command(c@, arg1@, arg2@),
    {
        if arg1.token_type == TokenType::Symbol && arg2.token_type == TokenType::Index {
            match (c.token_type, parse_u16(arg2.token.as_str())) {
                (TokenType::Function, Some(nvars)) => Some(
                    Command::Function { symbol: arg1.token.clone(), nvars },
                ),
                (TokenType::Call, Some(nargs)) => Some(
                    Command::Call { symbol: arg1.token.clone(), nargs },
                ),
                _ => None,
            }
        } else {
            None
        }
    }

    /// The operator command of `c`.
    pub fn arithmetic_parse(c: &Token) -> (made: Option<Command>)
        ensures
            command_view(made) == arithmetic_command(c@),
    {
        match c.token_type {
            TokenType::Add
            | TokenType::Subtract
            | TokenType::Negate
            | TokenType::Equal
            | TokenType::LessThan
            | TokenType::GreaterThan
            | TokenType::And
            | TokenType::Or
            | TokenType::Not => Some(Command::Arithmetic(c.token_type)),
            _ => None,
        }
    }
}

/// A line without tokens and a line whose first token is a comment hold
/// nothing, whatever follows.
pub proof fn lemma_blank_and_comment_lines(
    tokens: Seq<TokenView>,
    class_name: Seq<char>,
    line_number: usize,
)
    requires
        tokens.len() == 0 || tokens[0].token_type == TokenType::Comment,
    ensures
        parse_tokens(tokens, class_name, line_number) == Ok::<Option<CommandView>, ParseError>(None),
{
}

/// A line whose first token is neither a comment nor marked as a keyword is
/// a keyword error; so is every line that starts with a bare symbol or index.
pub proof fn lemma_line_without_keyword(
    tokens: Seq<TokenView>,
    class_name: Seq<char>,
    line_number: usize,
)
    requires
        tokens.len() > 0,
        tokens[0].token_type != TokenType::Comment,
        !tokens[0].is_keyword,
    ensures
        parse_tokens(tokens, class_name, line_number) == Err::<Option<CommandView>, ParseError>(
            ParseError::KeywordError { line_number },
        ),
{
}

/// A comment behind the tokens of a line changes nothing: with a comment
/// token and whatever follows it appended, the line holds what it held.
pub proof fn lemma_inline_comment(
    tokens: Seq<TokenView>,
    comment: Seq<TokenView>,
    class_name: Seq<char>,
    line_number: usize,
)
    requires
        comment.len() > 0,
        comment[0].token_type == TokenType::Comment,
    ensures
        parse_tokens(tokens + comment, class_name, line_number) == parse_tokens(
            tokens,
            class_name,
            line_number,
        ),
{
}

/// Only the keyword and its operands are read: tokens behind a line that
/// holds a command do not change the command.
pub proof fn lemma_tokens_behind_a_command(
    tokens: Seq<TokenView>,
    more: Seq<TokenView>,
    class_name: Seq<char>,
    line_number: usize,
)
    requires
        parse_tokens(tokens, class_name, line_number) matches Ok(Some(_)),
    ensures
        parse_tokens(tokens + more, class_name, line_number) == parse_tokens(
            tokens,
            class_name,
            line_number,
        ),
{
}

/// A line with a comment behind its words holds what the line without the
/// comment holds: where word `k` is the first that the rules take for a
/// comment, the words parse as the `k` words before it do.
pub proof fn lemma_line_with_inline_comment(
    rules: Seq<MatchRuleView>,
    words: Seq<Seq<char>>,
    k: int,
    class_name: Seq<char>,
    line_number: usize,
)
    requires
        0 <= k < words.len(),
        classify(rules, words[k]).token_type == TokenType::Comment,
        forall|j: int|
            0 <= j < k ==> classify(rules, #[trigger] words[j]).token_type != TokenType::Comment,
    ensures
        parse_tokens(scan(rules, words), class_name, line_number) == parse_tokens(
            scan(rules, words.take(k)),
            class_name,
            line_number,
        ),
{
    lemma_scan_stops_at_comment(rules, words, k, 0);
    lemma_inline_comment(
        scan(rules, words.take(k)),
        seq![classify(rules, words[k])],
        class_name,
        line_number,
    );
}

} // verus!
