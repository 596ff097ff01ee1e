//! The tokenizer: it splits a line into words and gives each word the kind
//! of the first matching rule, in the order of the rules.

use regex::Regex;
use vstd::prelude::*;
use crate::words::{split_words, texts, words_of};

verus! {

/// The kinds of token.
#[derive(Debug, PartialEq, Eq, Clone, Copy, Structural)]
pub enum TokenType {
    Push,
    Pop,
    Add,
    Subtract,
    Negate,
    Equal,
    LessThan,
    GreaterThan,
    And,
    Or,
    Not,
    Symbol,
    Index,
    Comment,
    Label,
    If,
    Goto,
    Function,
    Call,
    Return,
    Undefined,
}

/// One word of a line with its kind. `is_keyword` marks the names of
/// commands and operators.
#[derive(Debug, PartialEq, Clone)]
pub struct Token {
    pub token: String,
    pub token_type: TokenType,
    pub is_keyword: bool,
}

/// What a `Token` holds, as a mathematical value.
pub struct TokenView {
    pub token: Seq<char>,
    pub token_type: TokenType,
    pub is_keyword: bool,
}

impl View for Token {
    type V = TokenView;

    open spec fn view(&self) -> TokenView {
        TokenView { token: self.token@, token_type: self.token_type, is_keyword: self.is_keyword }
    }
}

pub type TokenList = Vec<Token>;

/// The views of the tokens of `tokens`.
pub open spec fn token_views(tokens: Seq<Token>) -> Seq<TokenView> {
    tokens.map_values(|t: Token| t@)
}

impl Token {
    /// A token of kind `token_type` with an empty text that is no keyword.
    pub fn new(token_type: TokenType) -> (token: Token)
        ensures
            token@ == (TokenView { token: Seq::empty(), token_type, is_keyword: false }),
    {
        Token { token: String::new(), token_type, is_keyword: false }
    }

    /// The token with the given text, kind and keyword mark.
    pub fn from(token: String, token_type: TokenType, is_keyword: bool) -> (made: Token)
        ensures
            made@ == (TokenView { token: token@, token_type, is_keyword }),
    {
        Token { token, token_type, is_keyword }
    }
}

/// Whether the regular expression `pattern` matches somewhere in `haystack`;
/// `None` where `pattern` is not a regular expression that can be compiled.
pub uninterp spec fn regex_search(pattern: Seq<char>, haystack: Seq<char>) -> Option<bool>;

/// Compiles `pattern` with `regex::Regex::new` and asks `Regex::is_match`
/// whether it matches somewhere in `haystack`. Both depend on their arguments
/// alone, so the outcome has a name, `regex_search`; nothing else is claimed
/// of it. A pattern that does not compile gives `None`.
#[verifier::external_body]
fn search(pattern: &str, haystack: &str) -> (found: Option<bool>)
    ensures
        found == regex_search(pattern@, haystack@),
{
    match Regex::new(pattern) {
        Ok(regex) => Some(regex.is_match(haystack)),
        Err(_) => None,
    }
}

/// A matching rule: the words in which `pattern` matches get the kind
/// `return_type` and the keyword mark `is_keyword`.
pub struct MatchRule {
    return_type: TokenType,
    pattern: String,
    is_keyword: bool,
}

/// What a `MatchRule` holds, as a mathematical value.
pub struct MatchRuleView {
    pub return_type: TokenType,
    pub pattern: Seq<char>,
    pub is_keyword: bool,
}

impl View for MatchRule {
    type V = MatchRuleView;

    closed spec fn view(&self) -> MatchRuleView {
        MatchRuleView {
            return_type: self.return_type,
            pattern: self.pattern@,
            is_keyword: self.is_keyword,
        }
    }
}

/// The views of the rules of `rules`.
pub open spec fn rule_views(rules: Seq<MatchRule>) -> Seq<MatchRuleView> {
    rules.map_values(|r: MatchRule| r@)
}

/// Whether `rule` matches `word`: its pattern compiles and matches somewhere
/// in the word. A rule whose pattern does not compile matches no word.
pub open spec fn rule_matches(rule: MatchRuleView, word: Seq<char>) -> bool {
    regex_search(rule.pattern, word) == Some(true)
}

/// The first rule at position `i` or later that matches `word`.
pub open spec fn first_match_from(rules: Seq<MatchRuleView>, word: Seq<char>, i: int) -> Option<
    int,
>
    decreases rules.len() - i,
{
    if i < 0 || i >= rules.len() {
        None
    } else if rule_matches(rules[i], word) {
        Some(i)
    } else {
        first_match_from(rules, word, i + 1)
    }
}

/// The first rule that matches `word`.
pub open spec fn first_match(rules: Seq<MatchRuleView>, word: Seq<char>) -> Option<int> {
    first_match_from(rules, word, 0)
}

/// The token for `word` where `hit` is the rule that decides it: the rule's
/// kind and keyword mark, or an undefined token where no rule does. Either
/// way the token carries the word.
pub open spec fn token_for(rules: Seq<MatchRuleView>, word: Seq<char>, hit: Option<int>)
    -> TokenView {
    match hit {
        Some(i) => TokenView {
            token: word,
            token_type: rules[i].return_type,
            is_keyword: rules[i].is_keyword,
        },
        None => TokenView { token: word, token_type: TokenType::Undefined, is_keyword: false },
    }
}

/// The token that `rules` give to `word`.
pub open spec fn classify(rules: Seq<MatchRuleView>, word: Seq<char>) -> TokenView {
    token_for(rules, word, first_match(rules, word))
}

/// The tokens of the words from position `i` on, up to and including the
/// first comment token: what follows a comment token is dropped.
pub open spec fn scan_from(rules: Seq<MatchRuleView>, words: Seq<Seq<char>>, i: int) -> Seq<
    TokenView,
>
    decreases words.len() - i,
{
    if i < 0 || i >= words.len() {
        Seq::empty()
    } else if classify(rules, words[i]).token_type == TokenType::Comment {
        seq![classify(rules, words[i])]
    } else {
        seq![classify(rules, words[i])] + scan_from(rules, words, i + 1)
    }
}

/// The tokens of a sequence of words.
pub open spec fn scan(rules: Seq<MatchRuleView>, words: Seq<Seq<char>>) -> Seq<TokenView> {
    scan_from(rules, words, 0)
}

/// The tokens of a line.
pub open spec fn tokens_of(rules: Seq<MatchRuleView>, line: Seq<char>) -> Seq<TokenView> {
    scan(rules, words_of(line))
}

impl MatchRule {
    /// The rule that gives the words in which `pattern` matches the kind
    /// `return_type` and the keyword mark `is_keyword`.
    pub fn new(return_type: TokenType, pattern: &str, is_keyword: bool) -> (rule: MatchRule)
        ensures
            rule@ == (MatchRuleView { return_type, pattern: pattern@, is_keyword }),
    {
        MatchRule { return_type, pattern: String::from_str(pattern), is_keyword }
    }

    /// Whether the rule matches `input`.
    pub fn matches_str(&self, input: &str) -> (hit: bool)
        ensures
            hit == rule_matches(self@, input@),
    {
        match search(self.pattern.as_str(), input) {
            Some(found) => found,
            None => false,
        }
    }
}

/// An ordered list of matching rules.
pub struct Tokenizer {
    match_rules: Vec<MatchRule>,
}

impl View for Tokenizer {
    type V = Seq<MatchRuleView>;

    closed spec fn view(&self) -> Seq<MatchRuleView> {
        rule_views(self.match_rules@)
    }
}

impl Tokenizer {
    /// The tokenizer that tries `match_rules` in their order.
    pub fn from(match_rules: Vec<MatchRule>) -> (tokenizer: Tokenizer)
        ensures
            tokenizer@ == rule_views(match_rules@),
    {
        Tokenizer { match_rules }
    }

    /// Adds `match_rule` behind the rules that are there.
    pub fn add_rule(&mut self, match_rule: MatchRule)
        ensures
            final(self)@ == old(self)@.push(match_rule@),
    {
        self.match_rules.push(match_rule);
    }

    /// The number of rules.
    pub fn rule_count(&self) -> (count: usize)
        ensures
            count == self@.len(),
    {
        self.match_rules.len()
    }

    /// The position of the first rule that matches `word`.
    pub fn first_match(&self, word: &str) -> (hit: Option<usize>)
        ensures
            match hit {
                Some(i) => i < self@.len() && first_match(self@, word@) == Some(i as int),
                None => first_match(self@, word@) is None,
            },
    {
        let mut i: usize = 0;
        while i < self.match_rules.len()
            invariant
                0 <= i <= self.match_rules.len(),
                first_match(self@, word@) == first_match_from(self@, word@, i as int),
            decreases self.match_rules.len() - i,
        {
            if self.match_rules[i].matches_str(word) {
                return Some(i);
            }
            i = i + 1;
        }
        None
    }

    /// The token for `word` where `hit` is the position of the rule that
    /// decides it, or `None` where no rule matches.
    pub fn token_for(&self, word: &str, hit: Option<usize>) -> (token: Token)
        requires
            hit matches Some(i) ==> i < self@.len(),
        ensures
            token@ == token_for(
                self@,
                word@,
                match hit {
                    Some(i) => Some(i as int),
                    None => None,
                },
            ),
    {
        match hit {
            Some(i) => {
                let rule = &self.match_rules[i];
                Token::from(String::from_str(word), rule.return_type, rule.is_keyword)
            },
            None => Token::from(String::from_str(word), TokenType::Undefined, false),
        }
    }

    /// The tokens of `input`: one for each of its words, up to and including
    /// the first comment token. Never fails.
    pub fn tokenize(&self, input: &str) -> (result: Result<TokenList, &'static str>)
        ensures
            result is Ok,
            token_views(result->Ok_0@) == tokens_of(self@, input@),
    {
        Ok(self.tokens(input))
    }

    /// The tokens of `input`: one for each of its words, up to and including
    /// the first comment token.
    pub fn tokens(&self, input: &str) -> (tokens: TokenList)
        ensures
            token_views(tokens@) == tokens_of(self@, input@),
    {
        let words = split_words(input);
        let mut tokens: TokenList = Vec::new();
        let mut i: usize = 0;
        while i < words.len()
            invariant
                0 <= i <= words.len(),
                texts(words@) == words_of(input@),
                token_views(tokens@) + scan_from(self@, texts(words@), i as int) == tokens_of(
                    self@,
                    input@,
                ),
            decreases words.len() - i,
        {
            let word = words[i].as_str();
            let hit = self.first_match(word);
            let token = self.token_for(word, hit);
            let stop = token.token_type == TokenType::Comment;
            assert(token_views(tokens@.push(token)) =~= token_views(tokens@) + seq![token@]);
            tokens.push(token);
            if stop {
                return tokens;
            }
            i = i + 1;
        }
        tokens
    }
}

/// The first match from `i` on, where there is one, is a rule of the list at
/// `i` or later that matches the word, and no rule between the two does.
pub proof fn lemma_first_match_in_range(rules: Seq<MatchRuleView>, word: Seq<char>, i: int)
    requires
        0 <= i,
    ensures
        match first_match_from(rules, word, i) {
            Some(k) => {
                &&& i <= k < rules.len()
                &&& rule_matches(rules[k], word)
                &&& forall|j: int| i <= j < k ==> !rule_matches(#[trigger] rules[j], word)
            },
            None => forall|j: int| i <= j < rules.len() ==> !rule_matches(#[trigger] rules[j], word),
        },
    decreases rules.len() - i,
{
    if i < rules.len() && !rule_matches(rules[i], word) {
        lemma_first_match_in_range(rules, word, i + 1);
    }
}

/// The rule with the given kind, pattern and keyword mark.
pub open spec fn rule_of(return_type: TokenType, pattern: Seq<char>, is_keyword: bool)
    -> MatchRuleView {
    MatchRuleView { return_type, pattern, is_keyword }
}

/// The rules of the language, in the order in which they are tried: the
/// comment marker, the names of the commands and operators, then the two
/// shapes of operand.
pub open spec fn default_rules() -> Seq<MatchRuleView> {
    seq![
        rule_of(TokenType::Comment, "^//"@, false),
        rule_of(TokenType::Push, "push"@, true),
        rule_of(TokenType::Pop, "pop"@, true),
        rule_of(TokenType::Add, "add"@, true),
        rule_of(TokenType::Subtract, "sub"@, true),
        rule_of(TokenType::Negate, "neg"@, true),
        rule_of(TokenType::Equal, "eq"@, true),
        rule_of(TokenType::GreaterThan, "gt"@, true),
        rule_of(TokenType::LessThan, "lt"@, true),
        rule_of(TokenType::And, "and"@, true),
        rule_of(TokenType::Or, "or"@, true),
        rule_of(TokenType::Not, "not"@, true),
        rule_of(TokenType::Label, "label"@, true),
        rule_of(TokenType::If, "if-goto"@, true),
        rule_of(TokenType::Goto, "goto"@, true),
        rule_of(TokenType::Function, "function"@, true),
        rule_of(TokenType::Call, "call"@, true),
        rule_of(TokenType::Return, "return"@, true),
        rule_of(TokenType::Symbol, "[a-z_.]+"@, false),
        rule_of(TokenType::Index, "[0-9]+"@, false),
    ]
}

/// The rules of the language, in the order in which they are tried.
pub fn default_ruleset() -> (rules: Vec<MatchRule>)
    ensures
        rule_views(rules@) == default_rules(),
{
    vec![
        MatchRule::new(TokenType::Comment, "^//", false),
        MatchRule::new(TokenType::Push, "push", true),
        MatchRule::new(TokenType::Pop, "pop", true),
        MatchRule::new(TokenType::Add, "add", true),
        MatchRule::new(TokenType::Subtract, "sub", true),
        MatchRule::new(TokenType::Negate, "neg", true),
        MatchRule::new(TokenType::Equal, "eq", true),
        MatchRule::new(TokenType::GreaterThan, "gt", true),
        MatchRule::new(TokenType::LessThan, "lt", true),
        MatchRule::new(TokenType::And, "and", true),
        MatchRule::new(TokenType::Or, "or", true),
        MatchRule::new(TokenType::Not, "not", true),
        MatchRule::new(TokenType::Label, "label", true),
        MatchRule::new(TokenType::If, "if-goto", true),
        MatchRule::new(TokenType::Goto, "goto", true),
        MatchRule::new(TokenType::Function, "function", true),
        MatchRule::new(TokenType::Call, "call", true),
        MatchRule::new(TokenType::Return, "return", true),
        MatchRule::new(TokenType::Symbol, "[a-z_.]+", false),
        MatchRule::new(TokenType::Index, "[0-9]+", false),
    ]
}

/// Before the first comment every word has its token, and the comment token
/// is the last: where word `k` is the first that is a comment, the tokens of
/// the words are the tokens of the `k` words before it and the comment token.
pub proof fn lemma_scan_stops_at_comment(
    rules: Seq<MatchRuleView>,
    words: Seq<Seq<char>>,
    k: int,
    i: int,
)
    requires
        0 <= i <= k < words.len(),
        classify(rules, words[k]).token_type == TokenType::Comment,
        forall|j: int|
            0 <= j < k ==> classify(rules, #[trigger] words[j]).token_type != TokenType::Comment,
    ensures
        scan_from(rules, words, i) == scan_from(rules, words.take(k), i) + seq![
            classify(rules, words[k]),
        ],
    decreases k - i,
{
    if i < k {
        assert(words.take(k)[i] == words[i]);
        lemma_scan_stops_at_comment(rules, words, k, i + 1);
    }
}

/// A line of white space alone has no tokens.
pub proof fn lemma_blank_line_has_no_tokens(rules: Seq<MatchRuleView>, line: Seq<char>)
    requires
        forall|k: int| 0 <= k < line.len() ==> crate::words::is_whitespace(#[trigger] line[k]),
    ensures
        tokens_of(rules, line) == Seq::<TokenView>::empty(),
{
    crate::words::lemma_blank_line_has_no_words(line, 0);
}

} // verus!
