//! The whole translation: from the lines of the source files to one
//! assembly text. Every line is tokenized and parsed before any code is
//! written, so the first line that is no command stops the run; then the
//! commands are written in their order.

use vstd::prelude::*;
use crate::parser::{line_views, parse_tokens, Command, CommandView, ParseError, Parser};
use crate::symbol_table::{starting_table, SymbolTable};
use crate::tokenizer::{
    classify,
    default_rules,
    default_ruleset,
    lemma_blank_line_has_no_tokens,
    tokens_of,
    MatchRuleView,
    TokenList,
    Tokenizer,
};
use crate::words::{is_whitespace, texts, words_of};
use crate::tokenizer::TokenType;
use crate::writer::{
    branch_end_label,
    branch_label,
    command_text,
    init_text,
    is_comparison,
    lemma_branch_labels_differ,
    lemma_return_labels_differ,
    return_label,
    state_after,
    AsmWriter,
    CodeGenError,
    WriterView,
};

verus! {

/// One source file: its name, under which its static variables live, and its
/// lines.
#[derive(Debug)]
pub struct SourceFile {
    pub name: String,
    pub lines: Vec<String>,
}

/// What a `SourceFile` holds, as a mathematical value.
pub struct SourceView {
    pub name: Seq<char>,
    pub lines: Seq<Seq<char>>,
}

impl View for SourceFile {
    type V = SourceView;

    open spec fn view(&self) -> SourceView {
        SourceView { name: self.name@, lines: texts(self.lines@) }
    }
}

/// The views of the files of `sources`.
pub open spec fn source_views(sources: Seq<SourceFile>) -> Seq<SourceView> {
    sources.map_values(|file: SourceFile| file@)
}

/// The views of the commands of `commands`.
pub open spec fn command_views(commands: Seq<Command>) -> Seq<CommandView> {
    commands.map_values(|command: Command| command@)
}

/// Why a translation gives no text.
#[derive(Debug, PartialEq, Eq, Clone, Copy, Structural)]
pub enum TranslateError {
    /// A line is no command.
    Parse(ParseError),
    /// A command has no code.
    CodeGen(CodeGenError),
}

/// `first` followed by the commands of `rest`, or the error of `rest`.
pub open spec fn then_commands(
    first: Seq<CommandView>,
    rest: Result<Seq<CommandView>, ParseError>,
) -> Result<Seq<CommandView>, ParseError> {
    match rest {
        Ok(commands) => Ok(first + commands),
        Err(error) => Err(error),
    }
}

/// `first` followed by the text of `rest`, or the error of `rest`.
pub open spec fn then_text(first: Seq<char>, rest: Result<Seq<char>, CodeGenError>) -> Result<
    Seq<char>,
    CodeGenError,
> {
    match rest {
        Ok(text) => Ok(first + text),
        Err(error) => Err(error),
    }
}

/// What line `i` of `file` holds. Lines are numbered from one.
pub open spec fn line_command(rules: Seq<MatchRuleView>, file: SourceView, i: int) -> Result<
    Option<CommandView>,
    ParseError,
> {
    parse_tokens(tokens_of(rules, file.lines[i]), file.name, (i + 1) as usize)
}

/// The commands of the lines of `file` from line `i` on, or the error of
/// the first of them that is no command.
pub open spec fn file_commands_from(rules: Seq<MatchRuleView>, file: SourceView, i: int) -> Result<
    Seq<CommandView>,
    ParseError,
>
    decreases file.lines.len() - i,
{
    if i < 0 || i >= file.lines.len() {
        Ok(Seq::empty())
    } else {
        match line_command(rules, file, i) {
            Err(error) => Err(error),
            Ok(Some(command)) => then_commands(
                seq![command],
                file_commands_from(rules, file, i + 1),
            ),
            Ok(None) => file_commands_from(rules, file, i + 1),
        }
    }
}

/// The commands of `file`.
pub open spec fn file_commands(rules: Seq<MatchRuleView>, file: SourceView) -> Result<
    Seq<CommandView>,
    ParseError,
> {
    file_commands_from(rules, file, 0)
}

/// The commands of the files of `sources` from file `k` on, file after
/// file, or the error of the first line that is no command.
pub open spec fn program_commands_from(
    rules: Seq<MatchRuleView>,
    sources: Seq<SourceView>,
    k: int,
) -> Result<Seq<CommandView>, ParseError>
    decreases sources.len() - k,
{
    if k < 0 || k >= sources.len() {
        Ok(Seq::empty())
    } else {
        match file_commands(rules, sources[k]) {
            Err(error) => Err(error),
            Ok(commands) => then_commands(commands, program_commands_from(rules, sources, k + 1)),
        }
    }
}

/// The commands of a program.
pub open spec fn program_commands(rules: Seq<MatchRuleView>, sources: Seq<SourceView>) -> Result<
    Seq<CommandView>,
    ParseError,
> {
    program_commands_from(rules, sources, 0)
}

/// The state in which command `i` is written where the run starts in the
/// state `start`: the state that the commands before it leave.
pub open spec fn state_at(start: WriterView, commands: Seq<CommandView>, i: int) -> WriterView
    decreases i,
{
    if i <= 0 {
        start
    } else {
        state_after(state_at(start, commands, i - 1), commands[i - 1])
    }
}

/// The code of the commands from position `i` on in a run that starts in the
/// state `start`, one after the other, or the error of the first of them
/// that has no code.
pub open spec fn code_from(start: WriterView, commands: Seq<CommandView>, i: int) -> Result<
    Seq<char>,
    CodeGenError,
>
    decreases commands.len() - i,
{
    if i < 0 || i >= commands.len() {
        Ok(Seq::empty())
    } else {
        match command_text(state_at(start, commands, i), commands[i]) {
            Err(error) => Err(error),
            Ok(text) => then_text(text, code_from(start, commands, i + 1)),
        }
    }
}

/// The code of a sequence of commands written from the state `start`.
pub open spec fn code_of(start: WriterView, commands: Seq<CommandView>) -> Result<
    Seq<char>,
    CodeGenError,
> {
    code_from(start, commands, 0)
}

/// The state of a writer that has written nothing: the counters at zero and
/// the starting table.
pub open spec fn start_state() -> WriterView {
    WriterView { line_count: 0, branch_count: 0, call_count: 0, table: starting_table() }
}

/// The translation of a program with the rules of the language: the
/// prologue where `write_init` asks for it, then the code of every command.
pub open spec fn translation(sources: Seq<SourceView>, write_init: bool) -> Result<
    Seq<char>,
    TranslateError,
> {
    match program_commands(default_rules(), sources) {
        Err(error) => Err(TranslateError::Parse(error)),
        Ok(commands) => {
            let code = if write_init {
                then_text(init_text(0), code_of(WriterView { call_count: 1, ..start_state() }, commands))
            } else {
                code_of(start_state(), commands)
            };
            match code {
                Err(error) => Err(TranslateError::CodeGen(error)),
                Ok(text) => Ok(text),
            }
        },
    }
}

/// The views of the commands of a result.
pub open spec fn commands_result(result: Result<Vec<Command>, ParseError>) -> Result<
    Seq<CommandView>,
    ParseError,
> {
    match result {
        Ok(commands) => Ok(command_views(commands@)),
        Err(error) => Err(error),
    }
}

/// The text of a result.
pub open spec fn code_result(result: Result<String, CodeGenError>) -> Result<
    Seq<char>,
    CodeGenError,
> {
    match result {
        Ok(text) => Ok(text@),
        Err(error) => Err(error),
    }
}

/// The text of a result.
pub open spec fn translation_result(result: Result<String, TranslateError>) -> Result<
    Seq<char>,
    TranslateError,
> {
    match result {
        Ok(text) => Ok(text@),
        Err(error) => Err(error),
    }
}

/// Commands joined in two steps are the commands joined in one.
proof fn lemma_then_commands(
    first: Seq<CommandView>,
    second: Seq<CommandView>,
    rest: Result<Seq<CommandView>, ParseError>,
)
    ensures
        then_commands(first, then_commands(second, rest)) == then_commands(first + second, rest),
        then_commands(Seq::empty(), rest) == rest,
        then_commands(first, Ok(Seq::empty())) == Ok::<Seq<CommandView>, ParseError>(first),
{
    if let Ok(commands) = rest {
        assert(first + (second + commands) =~= (first + second) + commands);
        assert(Seq::<CommandView>::empty() + commands =~= commands);
    }
    assert(first + Seq::<CommandView>::empty() =~= first);
}

/// Texts joined in two steps are the texts joined in one.
proof fn lemma_then_text(first: Seq<char>, second: Seq<char>, rest: Result<Seq<char>, CodeGenError>)
    ensures
        then_text(first, then_text(second, rest)) == then_text(first + second, rest),
        then_text(Seq::empty(), rest) == rest,
        then_text(first, Ok(Seq::empty())) == Ok::<Seq<char>, CodeGenError>(first),
{
    if let Ok(text) = rest {
        assert(first + (second + text) =~= (first + second) + text);
        assert(Seq::<char>::empty() + text =~= text);
    }
    assert(first + Seq::<char>::empty() =~= first);
}

/// The tokens of every line of `lines`.
pub fn tokenize_lines(tokenizer: &Tokenizer, lines: &Vec<String>) -> (tokens: Vec<TokenList>)
    ensures
        tokens.len() == lines.len(),
        forall|i: int|
            0 <= i < lines.len() ==> #[trigger] line_views(tokens@)[i] == tokens_of(
                tokenizer@,
                lines[i]@,
            ),
{
    let mut tokens: Vec<TokenList> = Vec::new();
    let mut i: usize = 0;
    while i < lines.len()
        invariant
            0 <= i <= lines.len(),
            tokens.len() == i,
            forall|j: int|
                0 <= j < i ==> #[trigger] line_views(tokens@)[j] == tokens_of(
                    tokenizer@,
                    lines[j]@,
                ),
        decreases lines.len() - i,
    {
        let line = tokenizer.tokens(lines[i].as_str());
        assert forall|j: int| 0 <= j < i + 1 implies #[trigger] line_views(tokens@.push(line))[j]
            == tokens_of(tokenizer@, lines[j]@) by {
            if j < i {
                assert(line_views(tokens@)[j] == tokens_of(tokenizer@, lines[j]@));
            }
        }
        tokens.push(line);
        i = i + 1;
    }
    tokens
}

/// The commands of `file`, or the error of its first line that is no
/// command.
pub fn parse_file(tokenizer: &Tokenizer, file: &SourceFile) -> (result: Result<
    Vec<Command>,
    ParseError,
>)
    ensures
        commands_result(result) == file_commands(tokenizer@, file@),
{
    let tokens = tokenize_lines(tokenizer, &file.lines);
    let mut parser = Parser::from(tokens, file.name.clone());
    let mut commands: Vec<Command> = Vec::new();
    let ghost lines = parser@.lines;
    proof {
        lemma_then_commands(Seq::empty(), Seq::empty(), file_commands(tokenizer@, file@));
    }
    while parser.has_more_commands()
        invariant
            parser@.lines == lines,
            parser@.class_name == file@.name,
            lines.len() == file@.lines.len(),
            parser@.cursor <= lines.len(),
            forall|i: int|
                0 <= i < lines.len() ==> #[trigger] lines[i] == tokens_of(
                    tokenizer@,
                    file@.lines[i],
                ),
            then_commands(
                command_views(commands@),
                file_commands_from(tokenizer@, file@, parser@.cursor as int),
            ) == file_commands(tokenizer@, file@),
        decreases lines.len() - parser@.cursor,
    {
        let ghost at = parser@.cursor as int;
        match parser.advance() {
            Ok(Some(command)) => {
                proof {
                    lemma_then_commands(
                        command_views(commands@),
                        seq![command@],
                        file_commands_from(tokenizer@, file@, at + 1),
                    );
                    assert(command_views(commands@.push(command)) =~= command_views(commands@)
                        + seq![command@]);
                }
                commands.push(command);
            },
            Ok(None) => {},
            Err(error) => {
                return Err(error);
            },
        }
    }
    proof {
        lemma_then_commands(command_views(commands@), Seq::empty(), Ok(Seq::empty()));
    }
    Ok(commands)
}

/// The commands of the files of `sources`, file after file, or the error of
/// the first line that is no command.
pub fn parse_program(tokenizer: &Tokenizer, sources: &Vec<SourceFile>) -> (result: Result<
    Vec<Command>,
    ParseError,
>)
    ensures
        commands_result(result) == program_commands(tokenizer@, source_views(sources@)),
{
    let mut commands: Vec<Command> = Vec::new();
    let mut k: usize = 0;
    let ghost files = source_views(sources@);
    proof {
        lemma_then_commands(Seq::empty(), Seq::empty(), program_commands(tokenizer@, files));
    }
    while k < sources.len()
        invariant
            0 <= k <= sources.len(),
            files == source_views(sources@),
            then_commands(
                command_views(commands@),
                program_commands_from(tokenizer@, files, k as int),
            ) == program_commands(tokenizer@, files),
        decreases sources.len() - k,
    {
        match parse_file(tokenizer, &sources[k]) {
            Ok(mut more) => {
                proof {
                    lemma_then_commands(
                        command_views(commands@),
                        command_views(more@),
                        program_commands_from(tokenizer@, files, k + 1),
                    );
                    assert(command_views(commands@ + more@) =~= command_views(commands@)
                        + command_views(more@));
                }
                commands.append(&mut more);
            },
            Err(error) => {
                return Err(error);
            },
        }
        k = k + 1;
    }
    proof {
        lemma_then_commands(command_views(commands@), Seq::empty(), Ok(Seq::empty()));
    }
    Ok(commands)
}

/// Writes `commands` one after the other and joins their code. The first
/// command that has no code stops the run.
pub fn generate(writer: &mut AsmWriter, commands: Vec<Command>) -> (result: Result<
    String,
    CodeGenError,
>)
    requires
        old(writer)@.line_count + commands.len() <= u128::MAX,
        old(writer)@.branch_count + commands.len() <= u128::MAX,
        old(writer)@.call_count + commands.len() <= u128::MAX,
    ensures
        code_result(result) == code_of(old(writer)@, command_views(commands@)),
{
    let mut out = String::new();
    let ghost all = command_views(commands@);
    let ghost start = writer@;
    proof {
        lemma_then_text(Seq::empty(), Seq::empty(), code_of(start, all));
    }
    for command in it: commands
        invariant
            it.seq() == commands@,
            all == command_views(commands@),
            start == old(writer)@,
            writer@.line_count + (commands.len() - it.index()) <= u128::MAX,
            writer@.branch_count + (commands.len() - it.index()) <= u128::MAX,
            writer@.call_count + (commands.len() - it.index()) <= u128::MAX,
            writer@ == state_at(start, all, it.index() as int),
            then_text(out@, code_from(start, all, it.index() as int)) == code_of(start, all),
    {
        let ghost at = it.index() as int;
        let ghost before = out@;
        match writer.write_command(command) {
            Ok(text) => {
                out.append(text.as_str());
                proof {
                    lemma_then_text(before, text@, code_from(start, all, at + 1));
                }
            },
            Err(error) => {
                return Err(error);
            },
        }
    }
    proof {
        lemma_then_text(out@, Seq::empty(), Ok(Seq::empty()));
    }
    Ok(out)
}

/// Translates a program with the rules of the language. `write_init` asks
/// for the prologue in front.
pub fn translate(sources: &Vec<SourceFile>, write_init: bool) -> (result: Result<
    String,
    TranslateError,
>)
    ensures
        translation_result(result) == translation(source_views(sources@), write_init),
{
    let tokenizer = Tokenizer::from(default_ruleset());
    let commands = match parse_program(&tokenizer, sources) {
        Ok(commands) => commands,
        Err(error) => {
            return Err(TranslateError::Parse(error));
        },
    };
    let mut table = SymbolTable::new();
    table.load_starting_table();
    assert(table@ =~= starting_table());
    let mut writer = AsmWriter::from(table);
    let mut out = String::new();
    if write_init {
        match writer.write_init() {
            Ok(prologue) => {
                out = prologue;
            },
            Err(error) => {
                return Err(TranslateError::CodeGen(error));
            },
        }
    }
    match generate(&mut writer, commands) {
        Ok(code) => {
            out.append(code.as_str());
            Ok(out)
        },
        Err(error) => Err(TranslateError::CodeGen(error)),
    }
}

/// Whether `line` holds nothing: it has no tokens, or it starts with a
/// comment.
pub open spec fn holds_nothing(rules: Seq<MatchRuleView>, line: Seq<char>) -> bool {
    tokens_of(rules, line).len() == 0 || tokens_of(rules, line)[0].token_type
        == TokenType::Comment
}

/// A line of white space alone holds nothing, and so does a line whose
/// first word the rules take for a comment.
pub proof fn lemma_blank_and_comment_lines_hold_nothing(
    rules: Seq<MatchRuleView>,
    line: Seq<char>,
    class_name: Seq<char>,
    line_number: usize,
)
    requires
        (forall|k: int| 0 <= k < line.len() ==> is_whitespace(#[trigger] line[k])) || (words_of(
            line,
        ).len() > 0 && classify(rules, words_of(line)[0]).token_type == TokenType::Comment),
    ensures
        holds_nothing(rules, line),
        parse_tokens(tokens_of(rules, line), class_name, line_number) == Ok::<
            Option<CommandView>,
            ParseError,
        >(None),
{
    if forall|k: int| 0 <= k < line.len() ==> is_whitespace(#[trigger] line[k]) {
        lemma_blank_line_has_no_tokens(rules, line);
    }
}

/// A blank line and a line that starts with a comment add no command to
/// their file.
pub proof fn lemma_silent_line(rules: Seq<MatchRuleView>, file: SourceView, i: int)
    requires
        0 <= i < file.lines.len(),
        holds_nothing(rules, file.lines[i]),
    ensures
        file_commands_from(rules, file, i) == file_commands_from(rules, file, i + 1),
{
}

/// A file of blank lines and comments alone has no commands.
pub proof fn lemma_silent_file(rules: Seq<MatchRuleView>, file: SourceView, i: int)
    requires
        0 <= i,
        forall|k: int| i <= k < file.lines.len() ==> holds_nothing(rules, #[trigger] file.lines[k]),
    ensures
        file_commands_from(rules, file, i) == Ok::<Seq<CommandView>, ParseError>(Seq::empty()),
    decreases file.lines.len() - i,
{
    if i < file.lines.len() {
        lemma_silent_file(rules, file, i + 1);
    }
}

/// Files of blank lines and comments alone have no commands between them.
pub proof fn lemma_silent_files(rules: Seq<MatchRuleView>, sources: Seq<SourceView>, k: int)
    requires
        0 <= k,
        forall|f: int, i: int|
            k <= f < sources.len() && 0 <= i < sources[f].lines.len() ==> holds_nothing(
                rules,
                #[trigger] sources[f].lines[i],
            ),
    ensures
        program_commands_from(rules, sources, k) == Ok::<Seq<CommandView>, ParseError>(
            Seq::empty(),
        ),
    decreases sources.len() - k,
{
    if k < sources.len() {
        lemma_silent_file(rules, sources[k], 0);
        lemma_silent_files(rules, sources, k + 1);
    }
}

/// Blank lines and comments emit no code: a program that has nothing else
/// translates to the empty text, or to the prologue alone where it is asked
/// for.
pub proof fn lemma_silent_program(sources: Seq<SourceView>, write_init: bool)
    requires
        forall|f: int, i: int|
            0 <= f < sources.len() && 0 <= i < sources[f].lines.len() ==> holds_nothing(
                default_rules(),
                #[trigger] sources[f].lines[i],
            ),
    ensures
        translation(sources, write_init) == Ok::<Seq<char>, TranslateError>(
            if write_init {
                init_text(0)
            } else {
                Seq::empty()
            },
        ),
{
    lemma_silent_files(default_rules(), sources, 0);
}

/// In a run the counters never fall, the table stays, and the number of
/// commands written grows by one with each command.
pub proof fn lemma_counters_grow(start: WriterView, commands: Seq<CommandView>, i: int, j: int)
    requires
        0 <= i <= j,
    ensures
        state_at(start, commands, j).line_count == state_at(start, commands, i).line_count + (j
            - i),
        state_at(start, commands, i).branch_count <= state_at(start, commands, j).branch_count,
        state_at(start, commands, i).call_count <= state_at(start, commands, j).call_count,
        state_at(start, commands, j).table == state_at(start, commands, i).table,
    decreases j - i,
{
    if i < j {
        lemma_counters_grow(start, commands, i, j - 1);
    }
}

/// Comparisons written one after the other, with whatever commands between
/// them, take strictly increasing numbers, so that no two of them share a
/// label.
pub proof fn lemma_comparisons_take_increasing_numbers(
    start: WriterView,
    commands: Seq<CommandView>,
    i: int,
    j: int,
)
    requires
        0 <= i < j,
        commands[i] matches CommandView::Arithmetic(op) && is_comparison(op),
    ensures
        state_at(start, commands, i).branch_count < state_at(start, commands, j).branch_count,
        branch_label(state_at(start, commands, i).branch_count) != branch_label(
            state_at(start, commands, j).branch_count,
        ),
        branch_end_label(state_at(start, commands, i).branch_count) != branch_end_label(
            state_at(start, commands, j).branch_count,
        ),
{
    lemma_counters_grow(start, commands, i + 1, j);
    lemma_branch_labels_differ(
        state_at(start, commands, i).branch_count,
        state_at(start, commands, j).branch_count,
    );
}

/// Calls written one after the other, with whatever commands between them,
/// take strictly increasing call site numbers, so that no two of them share
/// a return label, whether or not they call the same function.
pub proof fn lemma_calls_take_increasing_numbers(
    start: WriterView,
    commands: Seq<CommandView>,
    i: int,
    j: int,
    first: Seq<char>,
    second: Seq<char>,
)
    requires
        0 <= i < j,
        commands[i] is Call,
    ensures
        state_at(start, commands, i).call_count < state_at(start, commands, j).call_count,
        return_label(first, state_at(start, commands, i).call_count) != return_label(
            second,
            state_at(start, commands, j).call_count,
        ),
{
    lemma_counters_grow(start, commands, i + 1, j);
    lemma_return_labels_differ(
        first,
        state_at(start, commands, i).call_count,
        second,
        state_at(start, commands, j).call_count,
    );
}

} // verus!
