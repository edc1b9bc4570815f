use crate::error::Error;
use crate::ir::store::{fresh_node, IRModel, IR};
use crate::ir::{NodeModel, NodeType};
use crate::text::{opt_str, opt_text, str_eq};
use vstd::prelude::*;

verus! {

/// How a source is to be read.
#[derive(Debug, Clone)]
pub struct ParseOptions {
    pub jsx: bool,
    pub typescript: bool,
    pub comments: bool,
    pub filename: Option<String>,
    pub source_map: bool,
}

impl ParseOptions {
    /// Plain JavaScript with its comments kept, no file name, no source map.
    pub open spec fn is_default(&self) -> bool {
        !self.jsx && !self.typescript && self.comments && self.filename is None && !self.source_map
    }

    pub fn default_options() -> (o: ParseOptions)
        ensures
            o.is_default(),
    {
        ParseOptions { jsx: false, typescript: false, comments: true, filename: None, source_map: false }
    }

    /// A copy of these options.
    pub fn duplicate(&self) -> (o: ParseOptions)
        ensures
            o.jsx == self.jsx,
            o.typescript == self.typescript,
            o.comments == self.comments,
            o.source_map == self.source_map,
            opt_text(o.filename) == opt_text(self.filename),
    {
        ParseOptions {
            jsx: self.jsx,
            typescript: self.typescript,
            comments: self.comments,
            filename: match &self.filename {
                Some(f) => Some(f.clone()),
                None => None,
            },
            source_map: self.source_map,
        }
    }
}

/// Whether a normalized extension switches JSX on.
pub open spec fn extension_has_jsx(ext: Option<Seq<char>>) -> bool {
    ext == Some("jsx"@) || ext == Some("tsx"@)
}

/// Whether a normalized extension switches TypeScript on.
pub open spec fn extension_has_typescript(ext: Option<Seq<char>>) -> bool {
    ext == Some("ts"@) || ext == Some("tsx"@)
}

impl ParseOptions {
    /// The options to read a file with: these, with the name of the
    /// file, and with JSX and TypeScript switched on where the extension
    /// of the file, in lower case, asks for them.
    pub fn for_file(&self, filename: &str, extension: Option<&str>) -> (o: ParseOptions)
        ensures
            o.jsx == (self.jsx || extension_has_jsx(opt_str(extension))),
            o.typescript == (self.typescript || extension_has_typescript(opt_str(extension))),
            o.comments == self.comments,
            o.source_map == self.source_map,
            opt_text(o.filename) == Some(filename@),
    {
        let mut options = self.duplicate();
        options.filename = Some(filename.to_owned());
        match extension {
            Some(ext) => {
                if str_eq(ext, "jsx") {
                    options.jsx = true;
                } else if str_eq(ext, "tsx") {
                    options.jsx = true;
                    options.typescript = true;
                } else if str_eq(ext, "ts") {
                    options.typescript = true;
                }
                proof {
                    reveal_strlit("jsx");
                    reveal_strlit("tsx");
                    reveal_strlit("ts");
                    if ext@ == "jsx"@ {
                        assert("jsx"@[0] != "tsx"@[0]);
                        assert("jsx"@.len() != "ts"@.len());
                    }
                    if ext@ == "tsx"@ {
                        assert("tsx"@.len() != "ts"@.len());
                    }
                }
            },
            None => {},
        }
        options
    }
}

impl Default for ParseOptions {
    fn default() -> (o: ParseOptions)
        ensures
            o.is_default(),
    {
        ParseOptions::default_options()
    }
}

/// The kinds of lexical units.
#[derive(Debug, Clone, Copy, PartialEq, Eq, Structural)]
pub enum TokenType {
    LeftParen,
    RightParen,
    LeftBrace,
    RightBrace,
    LeftBracket,
    RightBracket,
    Semicolon,
    Comma,
    Dot,
    Plus,
    Minus,
    Star,
    Slash,
    Percent,
    Assign,
    Equal,
    StrictEqual,
    NotEqual,
    StrictNotEqual,
    Greater,
    GreaterEqual,
    Less,
    LessEqual,
    Arrow,
    Var,
    Let,
    Const,
    If,
    Else,
    For,
    While,
    Function,
    Return,
    Class,
    Import,
    Export,
    From,
    Async,
    Await,
    Identifier,
    String,
    Number,
    Boolean,
    Null,
    Undefined,
    JSXIdentifier,
    JSXAttributeValue,
    JSXOpeningElement,
    JSXClosingElement,
    TSType,
    TSInterface,
    Comment,
    EOF,
}

/// One lexical unit: its kind, its text, and where it begins.
#[derive(Debug, Clone)]
pub struct Token {
    pub token_type: TokenType,
    pub lexeme: String,
    pub line: usize,
    pub column: usize,
}

/// The mathematical value of a lexical unit.
pub struct TokenModel {
    pub token_type: TokenType,
    pub lexeme: Seq<char>,
    pub line: usize,
    pub column: usize,
}

impl View for Token {
    type V = TokenModel;

    open spec fn view(&self) -> TokenModel {
        TokenModel {
            token_type: self.token_type,
            lexeme: self.lexeme@,
            line: self.line,
            column: self.column,
        }
    }
}

pub open spec fn tokens_model(s: Seq<Token>) -> Seq<TokenModel> {
    Seq::new(s.len(), |i: int| s[i]@)
}

impl Token {
    pub fn new(token_type: TokenType, lexeme: &str, line: usize, column: usize) -> (t: Self)
        ensures
            t@ == (TokenModel { token_type, lexeme: lexeme@, line, column }),
    {
        Token { token_type, lexeme: lexeme.to_owned(), line, column }
    }
}

/// The reader that cuts a source into lexical units.
pub struct Lexer {
    pub source: String,
    pub tokens: Vec<Token>,
    pub start: usize,
    pub current: usize,
    pub line: usize,
    pub column: usize,
    pub options: ParseOptions,
}

/// The lexical units of the statement `var x = 42;`, with the mark of the
/// end after them.
pub open spec fn sample_tokens() -> Seq<TokenModel> {
    seq![
        TokenModel { token_type: TokenType::Var, lexeme: "var"@, line: 1, column: 1 },
        TokenModel { token_type: TokenType::Identifier, lexeme: "x"@, line: 1, column: 5 },
        TokenModel { token_type: TokenType::Assign, lexeme: "="@, line: 1, column: 7 },
        TokenModel { token_type: TokenType::Number, lexeme: "42"@, line: 1, column: 9 },
        TokenModel { token_type: TokenType::Semicolon, lexeme: ";"@, line: 1, column: 11 },
        TokenModel { token_type: TokenType::EOF, lexeme: ""@, line: 1, column: 12 },
    ]
}

impl Lexer {
    /// A reader at the start of a source: line 1, column 0, no unit read.
    pub fn new(source: &str, options: ParseOptions) -> (l: Self)
        ensures
            l.source@ == source@,
            l.tokens@.len() == 0,
            l.start == 0,
            l.current == 0,
            l.line == 1,
            l.column == 0,
            l.options == options,
    {
        Lexer {
            source: source.to_owned(),
            tokens: Vec::new(),
            start: 0,
            current: 0,
            line: 1,
            column: 0,
            options,
        }
    }

    /// The lexical units of the source. Whatever the source holds, these
    /// are the units of the statement `var x = 42;`; the reader itself
    /// stays as it is.
    pub fn scan_tokens(&mut self) -> (tokens: Vec<Token>)
        ensures
            tokens_model(tokens@) == sample_tokens(),
            *final(self) == *old(self),
    {
        let mut tokens: Vec<Token> = Vec::new();
        tokens.push(Token::new(TokenType::Var, "var", 1, 1));
        tokens.push(Token::new(TokenType::Identifier, "x", 1, 5));
        tokens.push(Token::new(TokenType::Assign, "=", 1, 7));
        tokens.push(Token::new(TokenType::Number, "42", 1, 9));
        tokens.push(Token::new(TokenType::Semicolon, ";", 1, 11));
        tokens.push(Token::new(TokenType::EOF, "", 1, 12));
        assert(tokens_model(tokens@) =~= sample_tokens());
        tokens
    }
}

/// The unit that parsing gives: a program with nothing in it.
pub open spec fn empty_program() -> IRModel {
    IRModel {
        nodes: Map::<usize, NodeModel>::empty().insert(0, fresh_node(0, NodeType::Program)),
        root_id: 0,
        next_id: 1,
        source_path: None,
    }
}

/// The reader that builds a unit from a source.
pub struct Parser {
    pub source: String,
    pub current_pos: usize,
}

impl Parser {
    pub fn new(source: &str) -> (p: Self)
        ensures
            p.source@ == source@,
            p.current_pos == 0,
    {
        Parser { source: source.to_owned(), current_pos: 0 }
    }

    /// The unit of the source. Whatever the source holds, this is the
    /// empty program; the reader itself stays as it is.
    pub fn parse(&mut self) -> (r: Result<IR, Error>)
        ensures
            r matches Ok(ir) && ir.wf() && ir@ == empty_program(),
            *final(self) == *old(self),
    {
        Ok(IR::new())
    }
}

/// The number of characters that an automaton tells apart.
pub const ALPHABET_SIZE: usize = 128;

/// A deterministic finite automaton over the first 128 characters, as a
/// table of the state that follows each state on each character.
pub struct DFA {
    pub(crate) transition_table: Vec<Vec<usize>>,
    pub(crate) accept_states: Vec<usize>,
    pub(crate) current_state: usize,
}

pub open spec fn table_model(t: Seq<Vec<usize>>) -> Seq<Seq<usize>> {
    Seq::new(t.len(), |i: int| t[i]@)
}

impl DFA {
    /// The state that follows each state on each character.
    pub closed spec fn table(&self) -> Seq<Seq<usize>> {
        table_model(self.transition_table@)
    }

    pub closed spec fn accepting(&self) -> Seq<usize> {
        self.accept_states@
    }

    pub closed spec fn current(&self) -> usize {
        self.current_state
    }

    /// Every row of the table has a cell for each of the first 128
    /// characters. `new` makes such a table, and no method changes the
    /// length of a row.
    pub open spec fn rows_are_full(&self) -> bool {
        forall|s: int|
            0 <= s < self.table().len() ==> (#[trigger] self.table()[s]).len() == ALPHABET_SIZE
    }

    /// The current state has a full row in the table: the automaton can
    /// take a character.
    pub open spec fn can_step(&self) -> bool {
        &&& self.current() < self.table().len()
        &&& self.table()[self.current() as int].len() == ALPHABET_SIZE
    }

    /// An automaton with `states_count` states that stays in state 0 on
    /// every character, and starts there.
    pub fn new(states_count: usize, accept_states: Vec<usize>) -> (d: Self)
        ensures
            d.table().len() == states_count,
            forall|s: int| 0 <= s < states_count ==> (#[trigger] d.table()[s]).len() == ALPHABET_SIZE,
            forall|s: int, c: int|
                0 <= s < states_count && 0 <= c < ALPHABET_SIZE ==> #[trigger] d.table()[s][c] == 0,
            d.accepting() == accept_states@,
            d.current() == 0,
            d.rows_are_full(),
    {
        let mut table: Vec<Vec<usize>> = Vec::new();
        let mut s: usize = 0;
        while s < states_count
            invariant
                s <= states_count,
                table.len() == s,
                forall|i: int| 0 <= i < s ==> (#[trigger] table@[i])@.len() == ALPHABET_SIZE,
                forall|i: int, c: int|
                    0 <= i < s && 0 <= c < ALPHABET_SIZE ==> #[trigger] table@[i]@[c] == 0,
            decreases states_count - s,
        {
            let mut row: Vec<usize> = Vec::new();
            let mut c: usize = 0;
            while c < ALPHABET_SIZE
                invariant
                    c <= ALPHABET_SIZE,
                    row.len() == c,
                    forall|k: int| 0 <= k < c ==> row@[k] == 0,
                decreases ALPHABET_SIZE - c,
            {
                row.push(0);
                c = c + 1;
            }
            table.push(row);
            s = s + 1;
        }
        DFA { transition_table: table, accept_states, current_state: 0 }
    }

    /// Sets the state that follows `from` on the character `on` to `to`,
    /// whatever `to` is. Nothing changes where `from` has no row in the
    /// table or the row has no cell for `on`; a full row has one for each
    /// of the first 128 characters.
    pub fn add_transition(&mut self, from: usize, on: char, to: usize)
        ensures
            final(self).accepting() == old(self).accepting(),
            final(self).current() == old(self).current(),
            final(self).rows_are_full() == old(self).rows_are_full(),
            final(self).table() == if from < old(self).table().len() && (on as u32) < old(
                self,
            ).table()[from as int].len() {
                old(self).table().update(
                    from as int,
                    old(self).table()[from as int].update(on as u32 as int, to),
                )
            } else {
                old(self).table()
            },
    {
        let code = on as u32;
        if from < self.transition_table.len() {
            if (code as usize) < self.transition_table[from].len() {
                let ghost was = *self;
                let ghost before = self.table();
                self.transition_table[from][code as usize] = to;
                assert(self.table() =~= before.update(
                    from as int,
                    before[from as int].update(code as int, to),
                ));
                assert(self.rows_are_full() == was.rows_are_full()) by {
                    assert forall|s: int| 0 <= s < before.len() implies (
                    #[trigger] self.table()[s]).len() == (#[trigger] before[s]).len() by {}
                    if was.rows_are_full() {
                        assert forall|s: int| 0 <= s < self.table().len() implies (
                        #[trigger] self.table()[s]).len() == ALPHABET_SIZE by {
                            assert(before[s].len() == ALPHABET_SIZE);
                        }
                    }
                    if self.rows_are_full() {
                        assert forall|s: int| 0 <= s < before.len() implies (
                        #[trigger] was.table()[s]).len() == ALPHABET_SIZE by {
                            assert(self.table()[s].len() == ALPHABET_SIZE);
                        }
                    }
                }
            }
        }
    }

    /// Goes back to state 0.
    pub fn reset(&mut self)
        ensures
            final(self).table() == old(self).table(),
            final(self).accepting() == old(self).accepting(),
            final(self).current() == 0,
    {
        self.current_state = 0;
    }

    fn accepts(&self, state: usize) -> (r: bool)
        ensures
            r == self.accepting().contains(state),
    {
        let mut i: usize = 0;
        while i < self.accept_states.len()
            invariant
                i <= self.accept_states.len(),
                forall|j: int| 0 <= j < i ==> self.accept_states@[j] != state,
            decreases self.accept_states.len() - i,
        {
            if self.accept_states[i] == state {
                return true;
            }
            i = i + 1;
        }
        false
    }

    /// Takes one character: the automaton goes to the state that the
    /// table gives for the current state and the character, and the
    /// answer is whether that state accepts. On a character that is none
    /// of the first 128 the automaton stays and the answer is no.
    pub fn transition(&mut self, on: char) -> (accepted: bool)
        requires
            old(self).can_step(),
        ensures
            final(self).table() == old(self).table(),
            final(self).accepting() == old(self).accepting(),
            (on as u32) < ALPHABET_SIZE ==> final(self).current() == old(self).table()[old(
                self,
            ).current() as int][on as u32 as int] && accepted == final(self).accepting().contains(
                final(self).current(),
            ),
            (on as u32) >= ALPHABET_SIZE ==> final(self).current() == old(self).current()
                && !accepted,
    {
        let code = on as u32;
        if code >= 128 {
            return false;
        }
        assert(self.table()[self.current_state as int].len() == ALPHABET_SIZE);
        self.current_state = self.transition_table[self.current_state][code as usize];
        self.accepts(self.current_state)
    }

    /// Whether the current state accepts.
    pub fn is_in_accept_state(&self) -> (accepted: bool)
        ensures
            accepted == self.accepting().contains(self.current()),
    {
        self.accepts(self.current_state)
    }
}

/// The front end for JavaScript and TypeScript sources.
pub struct JsParser {
    pub options: ParseOptions,
}

impl JsParser {
    pub fn new(options: ParseOptions) -> (p: Self)
        ensures
            p.options == options,
    {
        JsParser { options }
    }

    /// Reads a source and returns its unit: the empty program, whatever
    /// the source holds.
    pub fn parse_string(&self, source: &str) -> (r: Result<IR, Error>)
        ensures
            r matches Ok(ir) && ir.wf() && ir@ == empty_program(),
    {
        let mut lexer = Lexer::new(source, self.options.duplicate());
        let _tokens = lexer.scan_tokens();
        let mut parser = Parser::new(source);
        parser.parse()
    }
}

/// A front end for plain JavaScript.
pub fn create_js_parser() -> (p: JsParser)
    ensures
        p.options.is_default(),
{
    JsParser::new(ParseOptions::default_options())
}

/// A front end for TypeScript.
pub fn create_ts_parser() -> (p: JsParser)
    ensures
        p.options.typescript,
        !p.options.jsx,
        p.options.comments,
        p.options.filename is None,
        !p.options.source_map,
{
    let mut options = ParseOptions::default_options();
    options.typescript = true;
    JsParser::new(options)
}

/// A front end for JavaScript with JSX.
pub fn create_jsx_parser() -> (p: JsParser)
    ensures
        p.options.jsx,
        !p.options.typescript,
        p.options.comments,
        p.options.filename is None,
        !p.options.source_map,
{
    let mut options = ParseOptions::default_options();
    options.jsx = true;
    JsParser::new(options)
}

/// A front end for TypeScript with JSX.
pub fn create_tsx_parser() -> (p: JsParser)
    ensures
        p.options.jsx,
        p.options.typescript,
        p.options.comments,
        p.options.filename is None,
        !p.options.source_map,
{
    let mut options = ParseOptions::default_options();
    options.jsx = true;
    options.typescript = true;
    JsParser::new(options)
}

/// Reads a JavaScript source.
pub fn parse_js(source: &str) -> (r: Result<IR, Error>)
    ensures
        r matches Ok(ir) && ir.wf() && ir@ == empty_program(),
{
    create_js_parser().parse_string(source)
}

/// Reads a TypeScript source.
pub fn parse_ts(source: &str) -> (r: Result<IR, Error>)
    ensures
        r matches Ok(ir) && ir.wf() && ir@ == empty_program(),
{
    create_ts_parser().parse_string(source)
}

/// Reads a JavaScript source with JSX.
pub fn parse_jsx(source: &str) -> (r: Result<IR, Error>)
    ensures
        r matches Ok(ir) && ir.wf() && ir@ == empty_program(),
{
    create_jsx_parser().parse_string(source)
}

/// Reads a TypeScript source with JSX.
pub fn parse_tsx(source: &str) -> (r: Result<IR, Error>)
    ensures
        r matches Ok(ir) && ir.wf() && ir@ == empty_program(),
{
    create_tsx_parser().parse_string(source)
}

/// Reads a source with the bare reader.
pub fn parse_string(source: &str) -> (r: Result<IR, Error>)
    ensures
        r matches Ok(ir) && ir.wf() && ir@ == empty_program(),
{
    let mut parser = Parser::new(source);
    parser.parse()
}

} // verus!
