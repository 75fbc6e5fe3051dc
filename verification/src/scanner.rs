//! The scanner: it passes over white space and comments and reads the
//! source one token at a time.

use vstd::prelude::*;
use crate::constants::{contains_word, get_keywords, get_special_symbols, keywords, special_symbols};
use crate::source::{Source, SourceModel};
use crate::token::{Token, TokenKind, TokenModel};

verus! {

/// Whether a character is a letter or a digit of any script. The result of
/// `char::is_alphanumeric` of the standard library.
pub uninterp spec fn alphanumeric(c: char) -> bool;

/// A text with every letter in lower case. The result of `str::to_lowercase`
/// of the standard library.
pub uninterp spec fn lowercase(text: Seq<char>) -> Seq<char>;

/// `char::is_alphanumeric` of the standard library.
#[verifier::external_body]
fn is_alphanumeric(c: char) -> (r: bool)
    ensures
        r == alphanumeric(c),
{
    c.is_alphanumeric()
}

/// `str::to_lowercase` of the standard library.
#[verifier::external_body]
fn to_lowercase(text: &str) -> (r: String)
    ensures
        r@ == lowercase(text@),
{
    text.to_lowercase()
}

/// Whether a character is a decimal digit.
pub open spec fn digit(c: char) -> bool {
    '0' <= c <= '9'
}

/// Whether a character can stand inside a word: a letter, a digit or an
/// underscore.
pub open spec fn word_char(c: char) -> bool {
    alphanumeric(c) || c == '_'
}

fn is_blank(c: char) -> (r: bool)
    ensures
        r == blank(c),
{
    c == '\n' || c == ' ' || c == '\t'
}

fn is_digit(c: char) -> (r: bool)
    ensures
        r == digit(c),
{
    c >= '0' && c <= '9'
}

/// The source `count` characters further on.
pub open spec fn skip(source: SourceModel, count: nat) -> SourceModel
    decreases count,
{
    if count == 0 {
        source
    } else {
        skip(source, (count - 1) as nat).advance()
    }
}

/// The digits that stand at the position, as far as they go.
pub open spec fn digits(source: SourceModel) -> Seq<char>
    decreases source.lines.len() - source.row, source.lines[source.row].len() - source.column,
{
    if !source.at_end() && digit(source.current()) {
        seq![source.current()] + digits(source.advance())
    } else {
        Seq::empty()
    }
}

/// The word characters that stand at the position, as far as they go.
pub open spec fn word(source: SourceModel) -> Seq<char>
    decreases source.lines.len() - source.row, source.lines[source.row].len() - source.column,
{
    if !source.at_end() && word_char(source.current()) {
        seq![source.current()] + word(source.advance())
    } else {
        Seq::empty()
    }
}

/// What one attempt to read a token gives: the token, if one stands at the
/// position, and the source behind it.
pub struct Scan {
    pub token: Option<TokenModel>,
    pub rest: SourceModel,
}

/// A token with the given text and kind, placed where the source stands.
pub open spec fn token_at(lexeme: Seq<char>, kind: TokenKind, place: SourceModel) -> TokenModel {
    TokenModel { row: place.row, column: place.column, lexeme, kind }
}

/// No token stands at the position.
pub open spec fn nothing(source: SourceModel) -> Scan {
    Scan { token: None, rest: source }
}

/// A token was read; it is placed where the source stands behind it.
pub open spec fn read(lexeme: Seq<char>, kind: TokenKind, rest: SourceModel) -> Scan {
    Scan { token: Some(token_at(lexeme, kind, rest)), rest }
}

/// A run of digits is an integer literal.
pub open spec fn digit_part(source: SourceModel) -> Scan {
    if digit(source.current()) {
        read(digits(source), TokenKind::IntegerLiteral, skip(source, digits(source).len()))
    } else {
        nothing(source)
    }
}

/// An exponent is the letter `e`, a sign if there is one, and digits.
/// Without digits nothing is read, but the source stays behind the letter
/// and the sign.
pub open spec fn exponent(source: SourceModel) -> Scan {
    if source.current() == 'e' {
        let marked = source.advance();
        let signed = marked.current() == '+' || marked.current() == '-';
        let start = if signed {
            marked.advance()
        } else {
            marked
        };
        let mark = if signed {
            seq!['e', marked.current()]
        } else {
            seq!['e']
        };
        let part = digit_part(start);
        match part.token {
            None => nothing(start),
            Some(token) => read(mark + token.lexeme, TokenKind::Error, part.rest),
        }
    } else {
        nothing(source)
    }
}

/// A number is a run of digits, an integer literal, or two runs with a
/// point between them and an exponent if there is one, a real literal.
pub open spec fn number(source: SourceModel) -> Scan {
    let whole = digit_part(source);
    match whole.token {
        None => nothing(source),
        Some(integer) => if whole.rest.current() == '.' {
            let fraction = digit_part(whole.rest.advance());
            match fraction.token {
                None => whole,
                Some(decimals) => {
                    let power = exponent(fraction.rest);
                    let lexeme = integer.lexeme + seq!['.'] + decimals.lexeme;
                    match power.token {
                        None => read(lexeme, TokenKind::RealLiteral, power.rest),
                        Some(token) => read(
                            lexeme + token.lexeme,
                            TokenKind::RealLiteral,
                            power.rest,
                        ),
                    }
                },
            }
        } else {
            whole
        },
    }
}

/// The kind of a keyword.
pub open spec fn keyword_kind(word: Seq<char>) -> TokenKind {
    if word == "var"@ {
        TokenKind::Var
    } else if word == "and"@ {
        TokenKind::And
    } else if word == "or"@ {
        TokenKind::Or
    } else if word == "if"@ {
        TokenKind::If
    } else if word == "then"@ {
        TokenKind::Then
    } else if word == "else"@ {
        TokenKind::Else
    } else if word == "of"@ {
        TokenKind::Of
    } else if word == "while"@ {
        TokenKind::While
    } else if word == "do"@ {
        TokenKind::Do
    } else if word == "begin"@ {
        TokenKind::Begin
    } else if word == "end"@ {
        TokenKind::End
    } else if word == "array"@ {
        TokenKind::Array
    } else if word == "procedure"@ {
        TokenKind::Procedure
    } else if word == "function"@ {
        TokenKind::Function
    } else if word == "program"@ {
        TokenKind::Program
    } else if word == "assert"@ {
        TokenKind::Assert
    } else if word == "return"@ {
        TokenKind::Return
    } else if word == "not"@ {
        TokenKind::Not
    } else {
        TokenKind::Error
    }
}

/// The kind of a special symbol.
pub open spec fn symbol_kind(symbol: Seq<char>) -> TokenKind {
    if symbol == "+"@ {
        TokenKind::Plus
    } else if symbol == "-"@ {
        TokenKind::Minus
    } else if symbol == "*"@ {
        TokenKind::Multi
    } else if symbol == "/"@ {
        TokenKind::Division
    } else if symbol == "%"@ {
        TokenKind::Modulo
    } else if symbol == "="@ {
        TokenKind::Equal
    } else if symbol == "<>"@ {
        TokenKind::NotEqual
    } else if symbol == "<"@ {
        TokenKind::SmallerThan
    } else if symbol == "<="@ {
        TokenKind::ESmallerThan
    } else if symbol == ">"@ {
        TokenKind::LargerThan
    } else if symbol == ">="@ {
        TokenKind::ELargerThan
    } else if symbol == "("@ {
        TokenKind::OpenBracket
    } else if symbol == ")"@ {
        TokenKind::CloseBracket
    } else if symbol == "["@ {
        TokenKind::OpenSquareBracket
    } else if symbol == "]"@ {
        TokenKind::CloseSquareBracket
    } else if symbol == "."@ {
        TokenKind::Dot
    } else if symbol == ","@ {
        TokenKind::Comma
    } else if symbol == ":"@ {
        TokenKind::Colon
    } else if symbol == ";"@ {
        TokenKind::SemiColon
    } else if symbol == ":="@ {
        TokenKind::Assign
    } else {
        TokenKind::Error
    }
}

/// A word that starts with a letter or a digit is a keyword, if it is
/// written as one, and an identifier otherwise. Its text comes out in lower
/// case, and it is placed where it starts.
pub open spec fn identifier_or_keyword(source: SourceModel) -> Scan {
    if !source.at_end() && alphanumeric(source.current()) {
        Scan {
            token: Some(
                token_at(
                    lowercase(word(source)),
                    if keywords().contains(word(source)) {
                        keyword_kind(word(source))
                    } else {
                        TokenKind::Identifier
                    },
                    source,
                ),
            ),
            rest: skip(source, word(source).len()),
        }
    } else {
        nothing(source)
    }
}

/// A colon, alone or with an equals sign behind it.
pub open spec fn colon_or_assign(source: SourceModel) -> Scan {
    if source.current() == ':' {
        if source.advance().current() == '=' {
            read(seq![':', '='], symbol_kind(seq![':', '=']), source.advance().advance())
        } else {
            read(seq![':'], symbol_kind(seq![':']), source.advance())
        }
    } else {
        nothing(source)
    }
}

/// A special symbol: one character, or the two of `<>`, `<=` and `>=`.
pub open spec fn special_symbol(source: SourceModel) -> Scan {
    let first = source.current();
    let second = source.advance().current();
    if special_symbols().contains(seq![first]) {
        if (first == '<' && (second == '>' || second == '=')) || (first == '>' && second == '=') {
            read(seq![first, second], symbol_kind(seq![first, second]), source.advance().advance())
        } else {
            read(seq![first], symbol_kind(seq![first]), source.advance())
        }
    } else {
        nothing(source)
    }
}

/// What an escape adds to a string literal and where it leaves the source.
/// The backslash is passed; a quote or a backslash behind it is kept alone,
/// `n` and `t` are kept with their backslash, anything else is left where
/// it is.
pub open spec fn escape(source: SourceModel, lexeme: Seq<char>) -> (Seq<char>, SourceModel) {
    let escaped = source.advance();
    let c = escaped.current();
    if c == '"' || c == '\\' {
        (lexeme.push(c), escaped.advance())
    } else if c == 'n' {
        (lexeme + seq!['\\', 'n'], escaped.advance())
    } else if c == 't' {
        (lexeme + seq!['\\', 't'], escaped.advance())
    } else {
        (lexeme, escaped)
    }
}

/// The rest of a string literal, added to what was read of it: everything
/// up to the closing quote, which is kept, or up to the end of the source.
pub open spec fn string_body(source: SourceModel, lexeme: Seq<char>) -> (Seq<char>, SourceModel)
    decreases source.lines.len() - source.row, source.lines[source.row].len() - source.column,
{
    if source.at_end() {
        (lexeme, source)
    } else if source.current() == '"' {
        (lexeme.push('"'), source.advance())
    } else if source.current() == '\\' {
        let escaped = escape(source, lexeme);
        string_body(escaped.1, escaped.0)
    } else {
        string_body(source.advance(), lexeme.push(source.current()))
    }
}

/// A string literal starts with a quote.
pub open spec fn string_literal(source: SourceModel) -> Scan {
    if source.current() == '"' {
        let body = string_body(source.advance(), seq!['"']);
        read(body.0, TokenKind::StringLiteral, body.1)
    } else {
        nothing(source)
    }
}

/// Whether a character is white space between tokens.
pub open spec fn blank(c: char) -> bool {
    c == '\n' || c == ' ' || c == '\t'
}

/// The source behind the white space at the position.
pub open spec fn after_white_space(source: SourceModel) -> SourceModel
    decreases source.lines.len() - source.row, source.lines[source.row].len() - source.column,
{
    if !source.at_end() && blank(source.current()) {
        after_white_space(source.advance())
    } else {
        source
    }
}

/// The source behind a comment in braces and stars of which `depth` levels
/// are open. Comments nest. A comment that is not closed runs to the end of
/// the source.
pub open spec fn after_comment_body(source: SourceModel, depth: nat) -> SourceModel
    decreases source.lines.len() - source.row, source.lines[source.row].len() - source.column,
{
    if source.at_end() || source.current() == '\0' {
        source.advance()
    } else if source.current() == '*' {
        if source.advance().current() == '}' {
            if depth <= 1 {
                source.advance().advance()
            } else {
                after_comment_body(source.advance().advance(), (depth - 1) as nat)
            }
        } else {
            after_comment_body(source.advance(), depth)
        }
    } else if source.current() == '{' {
        if source.advance().current() == '*' {
            after_comment_body(source.advance().advance(), depth + 1)
        } else {
            after_comment_body(source.advance(), depth)
        }
    } else {
        after_comment_body(source.advance(), depth)
    }
}

/// Whether a comment in braces and stars starts at the position.
pub open spec fn at_multiline_comment(source: SourceModel) -> bool {
    source.current() == '{' && source.advance().current() == '*'
}

/// The source behind the rest of a line.
pub open spec fn after_line(source: SourceModel) -> SourceModel
    decreases source.lines.len() - source.row, source.lines[source.row].len() - source.column,
{
    if source.at_end() || source.current() == '\n' || source.current() == '\0' {
        source.advance()
    } else {
        after_line(source.advance())
    }
}

/// Whether a comment that runs to the end of its line starts at the
/// position.
pub open spec fn at_line_comment(source: SourceModel) -> bool {
    source.current() == '/' && source.advance().current() == '/'
}

/// The source behind a comment in braces and stars, if one starts at the
/// position.
pub open spec fn after_multiline_comment(source: SourceModel) -> SourceModel {
    if at_multiline_comment(source) {
        after_comment_body(source.advance().advance(), 1)
    } else {
        source
    }
}

/// The source behind a line comment, if one starts at the position.
pub open spec fn after_line_comment(source: SourceModel) -> SourceModel {
    if at_line_comment(source) {
        after_line(source.advance().advance())
    } else {
        source
    }
}

/// One round of screening: white space, a comment in braces and stars,
/// white space again, a line comment.
pub open spec fn screening_round(source: SourceModel) -> SourceModel {
    after_line_comment(
        after_white_space(after_multiline_comment(after_white_space(source))),
    )
}

/// Whether a round of screening passed a comment.
pub open spec fn round_passed_comment(source: SourceModel) -> bool {
    at_multiline_comment(after_white_space(source)) || at_line_comment(
        after_white_space(after_multiline_comment(after_white_space(source))),
    )
}

/// The token that stands where the source is, white space and comments
/// aside: the end of the source; or a number, a word, a colon or an
/// assignment sign, a special symbol, or a string literal, tried in this
/// order; or, where none of these starts, an error token that takes one
/// character.
pub open spec fn token_at_position(source: SourceModel) -> Scan {
    if source.at_end() {
        Scan { token: Some(token_at("eof"@, TokenKind::Eof, source)), rest: source }
    } else if number(source).token.is_some() {
        number(source)
    } else if identifier_or_keyword(source).token.is_some() {
        identifier_or_keyword(source)
    } else if colon_or_assign(source).token.is_some() {
        colon_or_assign(source)
    } else if special_symbol(source).token.is_some() {
        special_symbol(source)
    } else if string_literal(source).token.is_some() {
        string_literal(source)
    } else {
        read(Seq::empty(), TokenKind::Error, source.advance())
    }
}

/// An attempt to read a token came out as the rule says.
pub open spec fn scanned(result: Option<Token>, rest: SourceModel, scan: Scan) -> bool {
    &&& rest == scan.rest
    &&& match result {
        Some(token) => scan.token == Some(token@),
        None => scan.token.is_none(),
    }
}

/// The source moved forward, if at all, over the same lines.
pub open spec fn moved_on(before: SourceModel, after: SourceModel) -> bool {
    &&& after.lines == before.lines
    &&& 0 <= after.remaining() <= before.remaining()
}

/// Passing white space moves the source forward over the same lines.
pub proof fn lemma_after_white_space(source: SourceModel)
    requires
        source.wf(),
    ensures
        after_white_space(source).wf(),
        moved_on(source, after_white_space(source)),
    decreases source.remaining(),
{
    if !source.at_end() && blank(source.current()) {
        source.lemma_advance();
        lemma_after_white_space(source.advance());
    } else if source.at_end() {
        source.lemma_end();
    } else {
        source.lemma_advance();
    }
}

/// A step forward moves the source forward over the same lines.
pub proof fn lemma_step(source: SourceModel)
    requires
        source.wf(),
    ensures
        source.advance().wf(),
        moved_on(source, source.advance()),
        !source.at_end() ==> source.advance().remaining() < source.remaining(),
{
    if source.at_end() {
        source.lemma_end();
    } else {
        source.lemma_advance();
    }
}

/// Passing the body of a comment moves the source forward over the same
/// lines.
pub proof fn lemma_after_comment_body(source: SourceModel, depth: nat)
    requires
        source.wf(),
    ensures
        after_comment_body(source, depth).wf(),
        moved_on(source, after_comment_body(source, depth)),
    decreases source.remaining(),
{
    lemma_step(source);
    lemma_step(source.advance());
    if source.at_end() || source.current() == '\0' {
    } else if source.current() == '*' {
        if source.advance().current() == '}' {
            if depth > 1 {
                lemma_after_comment_body(source.advance().advance(), (depth - 1) as nat);
            }
        } else {
            lemma_after_comment_body(source.advance(), depth);
        }
    } else if source.current() == '{' {
        if source.advance().current() == '*' {
            lemma_after_comment_body(source.advance().advance(), depth + 1);
        } else {
            lemma_after_comment_body(source.advance(), depth);
        }
    } else {
        lemma_after_comment_body(source.advance(), depth);
    }
}

/// Passing the rest of a line moves the source forward over the same lines.
pub proof fn lemma_after_line(source: SourceModel)
    requires
        source.wf(),
    ensures
        after_line(source).wf(),
        moved_on(source, after_line(source)),
    decreases source.remaining(),
{
    lemma_step(source);
    if !(source.at_end() || source.current() == '\n' || source.current() == '\0') {
        lemma_after_line(source.advance());
    }
}

/// A round of screening moves the source forward over the same lines, and
/// by at least two characters where it passed a comment.
pub proof fn lemma_screening_round(source: SourceModel)
    requires
        source.wf(),
    ensures
        screening_round(source).wf(),
        moved_on(source, screening_round(source)),
        round_passed_comment(source) ==> screening_round(source).remaining()
            < source.remaining(),
{
    let a = after_white_space(source);
    lemma_after_white_space(source);
    lemma_step(a);
    lemma_step(a.advance());
    if at_multiline_comment(a) {
        lemma_after_comment_body(a.advance().advance(), 1);
    }
    let b = after_multiline_comment(a);
    lemma_after_white_space(b);
    let c = after_white_space(b);
    lemma_step(c);
    lemma_step(c.advance());
    if at_line_comment(c) {
        lemma_after_line(c.advance().advance());
    }
}

/// The source behind all the white space and comments at the position:
/// rounds of screening, until one passes no comment.
pub open spec fn screened(source: SourceModel) -> SourceModel
    decreases source.remaining(),
    when source.wf()
{
    if round_passed_comment(source) {
        proof {
            lemma_screening_round(source);
        }
        screened(screening_round(source))
    } else {
        screening_round(source)
    }
}

/// The next token of a source: the token that stands behind the white space
/// and the comments at the position.
pub open spec fn next_token(source: SourceModel) -> Scan {
    token_at_position(screened(source))
}

/// The scanner.
pub struct Scanner {
    src: Source,
}

impl Scanner {
    /// The source that the scanner reads, at its position.
    pub closed spec fn source(&self) -> SourceModel {
        self.src@
    }

    /// The scanner is in a state that its own operations produce.
    pub open spec fn wf(&self) -> bool {
        self.source().wf()
    }

    /// Reads the next token. At the end of the source the token is of kind
    /// `Eof`, and stays so; before it, every token takes at least one
    /// character.
    pub fn get_next_token(&mut self) -> (token: Token)
        requires
            old(self).wf(),
        ensures
            final(self).wf(),
            next_token(old(self).source()).token == Some(token@),
            final(self).source() == next_token(old(self).source()).rest,
            moved_on(old(self).source(), final(self).source()),
            token.token_kind != TokenKind::Eof ==> final(self).source().remaining() < old(
                self,
            ).source().remaining(),
            token.token_kind == TokenKind::Eof ==> final(self).source().at_end(),
            old(self).source().at_end() ==> token.token_kind == TokenKind::Eof,
    {
        proof {
            if self.source().at_end() {
                self.source().lemma_end();
            }
        }
        self.screening();
        proof {
            if !self.source().at_end() {
                self.source().lemma_advance();
            }
        }
        if self.src.end_of_file() {
            return Token {
                row: self.src.get_row(),
                column: self.src.get_column(),
                lexeme: String::from_str("eof"),
                token_kind: TokenKind::Eof,
            };
        }
        proof {
            self.src@.lemma_advance();
        }
        match scan_number(&mut self.src) {
            Some(t) => {
                return t;
            },
            None => {},
        }
        match scan_identifier_or_keyword(&mut self.src) {
            Some(t) => {
                return t;
            },
            None => {},
        }
        match scan_colon_or_assign(&mut self.src) {
            Some(t) => {
                return t;
            },
            None => {},
        }
        match scan_special_symbols(&mut self.src) {
            Some(t) => {
                return t;
            },
            None => {},
        }
        match scan_string_literal(&mut self.src) {
            Some(t) => {
                return t;
            },
            None => {},
        }
        self.src.get_next_char();
        proof {
            reveal_strlit("");
            assert(""@ =~= Seq::<char>::empty());
        }
        Token {
            row: self.src.get_row(),
            column: self.src.get_column(),
            lexeme: String::from_str(""),
            token_kind: TokenKind::Error,
        }
    }

    fn screen_white_space(&mut self)
        requires
            old(self).wf(),
        ensures
            final(self).wf(),
            final(self).source() == after_white_space(old(self).source()),
            moved_on(old(self).source(), final(self).source()),
    {
        while is_blank(self.src.peek())
            invariant
                self.wf(),
                after_white_space(self.source()) == after_white_space(old(self).source()),
                moved_on(old(self).source(), self.source()),
            decreases self.source().remaining(),
        {
            self.src.get_next_char();
        }
    }

    fn screening(&mut self)
        requires
            old(self).wf(),
        ensures
            final(self).wf(),
            final(self).source() == screened(old(self).source()),
            moved_on(old(self).source(), final(self).source()),
    {
        let mut result = true;
        while result
            invariant
                self.wf(),
                moved_on(old(self).source(), self.source()),
                result ==> screened(self.source()) == screened(old(self).source()),
                !result ==> self.source() == screened(old(self).source()),
            decreases self.source().remaining() + if result { 1int } else { 0int },
        {
            let ghost before = self.source();
            proof {
                lemma_screening_round(before);
            }
            self.screen_white_space();
            result = self.screen_multiline_comment();
            self.screen_white_space();
            let line = self.screen_single_line_comment();
            result = result || line;
        }
    }

    fn screen_multiline_comment(&mut self) -> (passed: bool)
        requires
            old(self).wf(),
        ensures
            final(self).wf(),
            passed == at_multiline_comment(old(self).source()),
            final(self).source() == after_multiline_comment(old(self).source()),
            moved_on(old(self).source(), final(self).source()),
    {
        if self.src.peek() == '{' {
            self.src.get_next_char();
            if self.src.peek() == '*' {
                self.src.get_next_char();
                let mut open_comment_count: u128 = 1;
                let ghost start = self.source();
                let ghost mut passed: int = 0;
                proof {
                    self.source().lemma_bounded();
                }
                loop
                    invariant_except_break
                        open_comment_count >= 1,
                        open_comment_count <= 1 + passed,
                        passed + self.source().remaining() <= start.remaining(),
                        start.remaining() <= usize::MAX * usize::MAX,
                        after_comment_body(self.source(), open_comment_count as nat)
                            == after_comment_body(start, 1),
                    invariant
                        self.wf(),
                        moved_on(old(self).source(), self.source()),
                    ensures
                        self.wf(),
                        self.source() == after_comment_body(start, 1),
                        moved_on(old(self).source(), self.source()),
                    decreases self.source().remaining(),
                {
                    let at_end = self.src.end_of_file();
                    let c = self.src.get_next_char();
                    if at_end || c == '\0' {
                        break ;
                    } else if c == '*' {
                        if self.src.peek() == '}' {
                            self.src.get_next_char();
                            open_comment_count = open_comment_count - 1;
                            if open_comment_count == 0 {
                                break ;
                            }
                        }
                    } else if c == '{' {
                        if self.src.peek() == '*' {
                            self.src.get_next_char();
                            proof {
                                passed = passed + 2;
                                assert(usize::MAX * usize::MAX < u128::MAX) by (nonlinear_arith);
                            }
                            open_comment_count = open_comment_count + 1;
                        }
                    }
                }
                true
            } else {
                self.src.reverse();
                false
            }
        } else {
            false
        }
    }

    fn screen_single_line_comment(&mut self) -> (passed: bool)
        requires
            old(self).wf(),
        ensures
            final(self).wf(),
            passed == at_line_comment(old(self).source()),
            final(self).source() == after_line_comment(old(self).source()),
            moved_on(old(self).source(), final(self).source()),
    {
        if self.src.peek() == '/' {
            self.src.get_next_char();
            if self.src.peek() == '/' {
                self.src.get_next_char();
                let ghost start = self.source();
                loop
                    invariant_except_break
                        after_line(self.source()) == after_line(start),
                    invariant
                        self.wf(),
                        moved_on(old(self).source(), self.source()),
                    ensures
                        self.wf(),
                        self.source() == after_line(start),
                        moved_on(old(self).source(), self.source()),
                    decreases self.source().remaining(),
                {
                    let at_end = self.src.end_of_file();
                    let c = self.src.get_next_char();
                    if at_end || c == '\n' || c == '\0' {
                        break ;
                    }
                }
                true
            } else {
                self.src.reverse();
                false
            }
        } else {
            false
        }
    }
}

fn scan_digit_part(src: &mut Source) -> (res: Option<Token>)
    requires
        old(src).wf(),
    ensures
        final(src).wf(),
        scanned(res, final(src)@, digit_part(old(src)@)),
        moved_on(old(src)@, final(src)@),
        res.is_some() ==> final(src)@.remaining() < old(src)@.remaining(),
{
    if !is_digit(src.peek()) {
        None
    } else {
        let mut lexeme = String::from_str("");
        proof {
            reveal_strlit("");
            assert(lexeme@ + digits(src@) =~= digits(old(src)@));
            old(src)@.lemma_advance();
        }
        while is_digit(src.peek())
            invariant
                src.wf(),
                src@ == skip(old(src)@, lexeme@.len()),
                lexeme@ + digits(src@) == digits(old(src)@),
                moved_on(old(src)@, src@),
                lexeme@.len() > 0 ==> src@.remaining() < old(src)@.remaining(),
            decreases src@.remaining(),
        {
            let ghost before = src@;
            let ghost text = lexeme@;
            let c = src.get_next_char();
            lexeme.push(c);
            proof {
                assert(lexeme@ + digits(src@) =~= text + digits(before));
            }
        }
        proof {
            assert(lexeme@ =~= digits(old(src)@));
        }
        Some(
            Token {
                lexeme,
                row: src.get_row(),
                column: src.get_column(),
                token_kind: TokenKind::IntegerLiteral,
            },
        )
    }
}

fn scan_exponent(src: &mut Source) -> (res: Option<Token>)
    requires
        old(src).wf(),
    ensures
        final(src).wf(),
        scanned(res, final(src)@, exponent(old(src)@)),
        moved_on(old(src)@, final(src)@),
{
    if src.peek() != 'e' {
        None
    } else {
        let mut lexeme = String::from_str("");
        proof {
            reveal_strlit("");
        }
        let e = src.get_next_char();
        lexeme.push(e);
        if src.peek() == '+' || src.peek() == '-' {
            let sign = src.get_next_char();
            lexeme.push(sign);
        }
        let ghost mark = lexeme@;
        match scan_digit_part(src) {
            None => None,
            Some(token2) => {
                lexeme.append(token2.lexeme.as_str());
                proof {
                    assert(mark =~= if old(src)@.advance().current() == '+' || old(
                        src,
                    )@.advance().current() == '-' {
                        seq!['e', old(src)@.advance().current()]
                    } else {
                        seq!['e']
                    });
                }
                Some(
                    Token {
                        lexeme,
                        token_kind: TokenKind::Error,
                        row: src.get_row(),
                        column: src.get_column(),
                    },
                )
            },
        }
    }
}

fn scan_number(src: &mut Source) -> (res: Option<Token>)
    requires
        old(src).wf(),
    ensures
        final(src).wf(),
        scanned(res, final(src)@, number(old(src)@)),
        moved_on(old(src)@, final(src)@),
        res.is_some() ==> final(src)@.remaining() < old(src)@.remaining(),
{
    match scan_digit_part(src) {
        None => None,
        Some(token) => {
            if src.peek() == '.' {
                let mut lexeme = token.lexeme.clone();
                let ghost whole = src@;
                let point = src.get_next_char();
                lexeme.push(point);
                match scan_digit_part(src) {
                    None => {
                        src.reverse();
                        Some(token)
                    },
                    Some(token2) => {
                        lexeme.append(token2.lexeme.as_str());
                        match scan_exponent(src) {
                            None => (),
                            Some(token3) => {
                                lexeme.append(token3.lexeme.as_str());
                            },
                        };
                        let column = src.get_column();
                        let row = src.get_row();
                        proof {
                            assert(token.lexeme@.push('.') =~= token.lexeme@ + seq!['.']);
                        }
                        Some(Token { lexeme, token_kind: TokenKind::RealLiteral, column, row })
                    },
                }
            } else {
                Some(token)
            }
        },
    }
}

fn scan_identifier_or_keyword(src: &mut Source) -> (res: Option<Token>)
    requires
        old(src).wf(),
    ensures
        final(src).wf(),
        scanned(res, final(src)@, identifier_or_keyword(old(src)@)),
        moved_on(old(src)@, final(src)@),
        res.is_some() ==> final(src)@.remaining() < old(src)@.remaining(),
{
    if src.end_of_file() || !is_alphanumeric(src.peek()) {
        None
    } else {
        let mut lexeme = String::from_str("");
        let mut t_type = TokenKind::Identifier;
        let row = src.get_row();
        let column = src.get_column();
        proof {
            reveal_strlit("");
            assert(lexeme@ + word(src@) =~= word(old(src)@));
            old(src)@.lemma_advance();
        }
        while !src.end_of_file() && (is_alphanumeric(src.peek()) || src.peek() == '_')
            invariant
                src.wf(),
                src@ == skip(old(src)@, lexeme@.len()),
                lexeme@ + word(src@) == word(old(src)@),
                moved_on(old(src)@, src@),
                lexeme@.len() > 0 ==> src@.remaining() < old(src)@.remaining(),
            decreases src@.remaining(),
        {
            let ghost before = src@;
            let ghost text = lexeme@;
            let c = src.get_next_char();
            lexeme.push(c);
            proof {
                assert(lexeme@ + word(src@) =~= text + word(before));
            }
        }
        proof {
            assert(lexeme@ =~= word(old(src)@));
        }
        let keywords = get_keywords();
        if contains_word(&keywords, lexeme.as_str()) {
            t_type = kw_str_to_tokenkind(lexeme.as_str());
        }
        Some(Token { lexeme: to_lowercase(lexeme.as_str()), token_kind: t_type, row, column })
    }
}

fn scan_colon_or_assign(src: &mut Source) -> (res: Option<Token>)
    requires
        old(src).wf(),
    ensures
        final(src).wf(),
        scanned(res, final(src)@, colon_or_assign(old(src)@)),
        moved_on(old(src)@, final(src)@),
        res.is_some() ==> final(src)@.remaining() < old(src)@.remaining(),
{
    if src.peek() == ':' {
        let mut lexeme = String::from_str("");
        proof {
            reveal_strlit("");
        }
        let colon = src.get_next_char();
        lexeme.push(colon);
        if src.peek() == '=' {
            let equals = src.get_next_char();
            lexeme.push(equals);
        }
        proof {
            assert(lexeme@ =~= seq![':', '='] || lexeme@ =~= seq![':']);
        }
        let token_kind = special_symbol_to_tokenkind(lexeme.as_str());
        Some(Token { token_kind, lexeme, column: src.get_column(), row: src.get_row() })
    } else {
        None
    }
}

fn scan_special_symbols(src: &mut Source) -> (res: Option<Token>)
    requires
        old(src).wf(),
    ensures
        final(src).wf(),
        scanned(res, final(src)@, special_symbol(old(src)@)),
        moved_on(old(src)@, final(src)@),
        res.is_some() ==> final(src)@.remaining() < old(src)@.remaining(),
{
    let operators = get_special_symbols();
    let mut charastring = String::from_str("");
    proof {
        reveal_strlit("");
    }
    let first = src.peek();
    charastring.push(first);
    proof {
        assert(charastring@ =~= seq![first]);
        lemma_symbols_are_not_null();
    }
    if !contains_word(&operators, charastring.as_str()) {
        None
    } else {
        let mut lexeme = String::from_str("");
        if first == '<' {
            let c = src.get_next_char();
            lexeme.push(c);
            if src.peek() == '>' || src.peek() == '=' {
                let d = src.get_next_char();
                lexeme.push(d);
            }
        } else if first == '>' {
            let c = src.get_next_char();
            lexeme.push(c);
            if src.peek() == '=' {
                let d = src.get_next_char();
                lexeme.push(d);
            }
        } else {
            let c = src.get_next_char();
            lexeme.push(c);
        }
        proof {
            let second = old(src)@.advance().current();
            assert(lexeme@ =~= seq![first, second] || lexeme@ =~= seq![first]);
        }
        Some(
            Token {
                token_kind: special_symbol_to_tokenkind(lexeme.as_str()),
                lexeme,
                row: src.get_row(),
                column: src.get_column(),
            },
        )
    }
}

/// No special symbol is the null character.
proof fn lemma_symbols_are_not_null()
    ensures
        !special_symbols().contains(seq!['\0']),
{
    reveal_strlit("+");
    reveal_strlit("-");
    reveal_strlit("*");
    reveal_strlit("/");
    reveal_strlit("%");
    reveal_strlit("=");
    reveal_strlit("<>");
    reveal_strlit("<");
    reveal_strlit("<=");
    reveal_strlit(">=");
    reveal_strlit(">");
    reveal_strlit("(");
    reveal_strlit(")");
    reveal_strlit("[");
    reveal_strlit("]");
    reveal_strlit(".");
    reveal_strlit(",");
    reveal_strlit(";");
    reveal_strlit(":");
    reveal_strlit(":=");
    let null = seq!['\0'];
    assert forall|i: int| 0 <= i < special_symbols().len() implies special_symbols()[i]
        != null by {
        assert(null[0] == '\0');
        assert(special_symbols()[i].len() == 2 || special_symbols()[i][0] != '\0');
    }
}

fn handle_escape_characters(src: &mut Source, lexeme: &mut String)
    requires
        old(src).wf(),
        old(src)@.current() == '\\',
    ensures
        final(src).wf(),
        final(lexeme)@ == escape(old(src)@, old(lexeme)@).0,
        final(src)@ == escape(old(src)@, old(lexeme)@).1,
        moved_on(old(src)@, final(src)@),
        final(src)@.remaining() < old(src)@.remaining(),
{
    src.get_next_char();
    let c = src.peek();
    if c == '"' || c == '\\' {
        let escaped = src.get_next_char();
        lexeme.push(escaped);
    } else if c == 'n' {
        src.get_next_char();
        lexeme.append("\\n");
        proof {
            reveal_strlit("\\n");
            assert("\\n"@ =~= seq!['\\', 'n']);
        }
    } else if c == 't' {
        src.get_next_char();
        lexeme.append("\\t");
        proof {
            reveal_strlit("\\t");
            assert("\\t"@ =~= seq!['\\', 't']);
        }
    }
}

fn scan_string_literal(src: &mut Source) -> (res: Option<Token>)
    requires
        old(src).wf(),
    ensures
        final(src).wf(),
        scanned(res, final(src)@, string_literal(old(src)@)),
        moved_on(old(src)@, final(src)@),
        res.is_some() ==> final(src)@.remaining() < old(src)@.remaining(),
{
    if src.peek() == '"' {
        let mut lexeme = String::from_str("");
        proof {
            reveal_strlit("");
        }
        let quote = src.get_next_char();
        lexeme.push(quote);
        let ghost start = src@;
        proof {
            assert(lexeme@ =~= seq!['"']);
        }
        loop
            invariant_except_break
                string_body(src@, lexeme@) == string_body(start, seq!['"']),
            invariant
                src.wf(),
                moved_on(old(src)@, src@),
                src@.remaining() < old(src)@.remaining(),
            ensures
                src.wf(),
                (lexeme@, src@) == string_body(start, seq!['"']),
                moved_on(old(src)@, src@),
                src@.remaining() < old(src)@.remaining(),
            decreases src@.remaining(),
        {
            if src.end_of_file() {
                break ;
            }
            let c = src.peek();
            if c == '"' {
                let closing = src.get_next_char();
                lexeme.push(closing);
                break ;
            } else if c == '\\' {
                handle_escape_characters(src, &mut lexeme);
            } else {
                let plain = src.get_next_char();
                lexeme.push(plain);
            }
        }
        Some(
            Token {
                lexeme,
                token_kind: TokenKind::StringLiteral,
                column: src.get_column(),
                row: src.get_row(),
            },
        )
    } else {
        None
    }
}

fn kw_str_to_tokenkind(kw_str: &str) -> (kind: TokenKind)
    ensures
        kind == keyword_kind(kw_str@),
{
    if *kw_str == *"var" {
        TokenKind::Var
    } else if *kw_str == *"and" {
        TokenKind::And
    } else if *kw_str == *"or" {
        TokenKind::Or
    } else if *kw_str == *"if" {
        TokenKind::If
    } else if *kw_str == *"then" {
        TokenKind::Then
    } else if *kw_str == *"else" {
        TokenKind::Else
    } else if *kw_str == *"of" {
        TokenKind::Of
    } else if *kw_str == *"while" {
        TokenKind::While
    } else if *kw_str == *"do" {
        TokenKind::Do
    } else if *kw_str == *"begin" {
        TokenKind::Begin
    } else if *kw_str == *"end" {
        TokenKind::End
    } else if *kw_str == *"array" {
        TokenKind::Array
    } else if *kw_str == *"procedure" {
        TokenKind::Procedure
    } else if *kw_str == *"function" {
        TokenKind::Function
    } else if *kw_str == *"program" {
        TokenKind::Program
    } else if *kw_str == *"assert" {
        TokenKind::Assert
    } else if *kw_str == *"return" {
        TokenKind::Return
    } else if *kw_str == *"not" {
        TokenKind::Not
    } else {
        TokenKind::Error
    }
}

fn special_symbol_to_tokenkind(kw_str: &str) -> (kind: TokenKind)
    ensures
        kind == symbol_kind(kw_str@),
{
    if *kw_str == *"+" {
        TokenKind::Plus
    } else if *kw_str == *"-" {
        TokenKind::Minus
    } else if *kw_str == *"*" {
        TokenKind::Multi
    } else if *kw_str == *"/" {
        TokenKind::Division
    } else if *kw_str == *"%" {
        TokenKind::Modulo
    } else if *kw_str == *"=" {
        TokenKind::Equal
    } else if *kw_str == *"<>" {
        TokenKind::NotEqual
    } else if *kw_str == *"<" {
        TokenKind::SmallerThan
    } else if *kw_str == *"<=" {
        TokenKind::ESmallerThan
    } else if *kw_str == *">" {
        TokenKind::LargerThan
    } else if *kw_str == *">=" {
        TokenKind::ELargerThan
    } else if *kw_str == *"(" {
        TokenKind::OpenBracket
    } else if *kw_str == *")" {
        TokenKind::CloseBracket
    } else if *kw_str == *"[" {
        TokenKind::OpenSquareBracket
    } else if *kw_str == *"]" {
        TokenKind::CloseSquareBracket
    } else if *kw_str == *"." {
        TokenKind::Dot
    } else if *kw_str == *"," {
        TokenKind::Comma
    } else if *kw_str == *":" {
        TokenKind::Colon
    } else if *kw_str == *";" {
        TokenKind::SemiColon
    } else if *kw_str == *":=" {
        TokenKind::Assign
    } else {
        TokenKind::Error
    }
}

/// A scanner at the start of a source.
pub fn build_scanner(source: Source) -> (scanner: Scanner)
    requires
        source.wf(),
    ensures
        scanner.wf(),
        scanner.source() == source@,
{
    Scanner { src: source }
}

/// Skipping one character more is skipping from one character further on.
pub proof fn lemma_skip_shift(source: SourceModel, count: nat)
    ensures
        skip(source, count + 1) == skip(source.advance(), count),
    decreases count,
{
    assert(skip(source, count + 1) == skip(source, count).advance());
    if count > 0 {
        lemma_skip_shift(source, (count - 1) as nat);
        assert(skip(source, count) == skip(source.advance(), (count - 1) as nat));
        assert(skip(source.advance(), count) == skip(
            source.advance(),
            (count - 1) as nat,
        ).advance());
    } else {
        assert(skip(source, 0) == source);
        assert(skip(source.advance(), 0) == source.advance());
    }
}

/// Passing the digits at the position moves the source forward over the
/// same lines, by as many characters as there are digits.
pub proof fn lemma_digits(source: SourceModel)
    requires
        source.wf(),
    ensures
        skip(source, digits(source).len()).wf(),
        moved_on(source, skip(source, digits(source).len())),
        skip(source, digits(source).len()).remaining() == source.remaining() - digits(
            source,
        ).len(),
    decreases source.remaining(),
{
    lemma_step(source);
    if !source.at_end() && digit(source.current()) {
        lemma_digits(source.advance());
        lemma_skip_shift(source, digits(source.advance()).len());
    }
}

/// Passing the word at the position moves the source forward over the same
/// lines, by as many characters as the word has.
pub proof fn lemma_word(source: SourceModel)
    requires
        source.wf(),
    ensures
        skip(source, word(source).len()).wf(),
        moved_on(source, skip(source, word(source).len())),
        skip(source, word(source).len()).remaining() == source.remaining() - word(source).len(),
    decreases source.remaining(),
{
    lemma_step(source);
    if !source.at_end() && word_char(source.current()) {
        lemma_word(source.advance());
        lemma_skip_shift(source, word(source.advance()).len());
    }
}

/// Passing the rest of a string literal moves the source forward over the
/// same lines.
pub proof fn lemma_string_body(source: SourceModel, lexeme: Seq<char>)
    requires
        source.wf(),
    ensures
        string_body(source, lexeme).1.wf(),
        moved_on(source, string_body(source, lexeme).1),
    decreases source.remaining(),
{
    lemma_step(source);
    lemma_step(source.advance());
    if source.at_end() {
    } else if source.current() == '"' {
    } else if source.current() == '\\' {
        let escaped = escape(source, lexeme);
        lemma_string_body(escaped.1, escaped.0);
    } else {
        lemma_string_body(source.advance(), lexeme.push(source.current()));
    }
}

/// A run of digits, read as a token, moves the source forward over the same
/// lines and takes at least one character.
pub proof fn lemma_digit_part(source: SourceModel)
    requires
        source.wf(),
    ensures
        digit_part(source).rest.wf(),
        moved_on(source, digit_part(source).rest),
        digit_part(source).token is Some ==> digit_part(source).rest.remaining()
            < source.remaining(),
        digit_part(source).token is None ==> digit_part(source).rest == source,
{
    lemma_digits(source);
    lemma_step(source);
}

/// The token at a position moves the source forward over the same lines. It
/// is the end of the source exactly there, and any other token takes at
/// least one character.
pub proof fn lemma_token_at_position(source: SourceModel)
    requires
        source.wf(),
    ensures
        token_at_position(source).token is Some,
        token_at_position(source).rest.wf(),
        moved_on(source, token_at_position(source).rest),
        token_at_position(source).token->0.kind == TokenKind::Eof <==> source.at_end(),
        !source.at_end() ==> token_at_position(source).rest.remaining() < source.remaining(),
        source.at_end() ==> token_at_position(source).rest == source,
{
    lemma_step(source);
    lemma_step(source.advance());
    if source.at_end() {
        source.lemma_end();
    } else {
        lemma_digit_part(source);
        let whole = digit_part(source);
        lemma_step(whole.rest);
        lemma_digit_part(whole.rest.advance());
        let fraction = digit_part(whole.rest.advance());
        lemma_step(fraction.rest);
        lemma_step(fraction.rest.advance());
        lemma_digit_part(fraction.rest.advance());
        lemma_digit_part(fraction.rest.advance().advance());
        lemma_word(source);
        lemma_symbols_are_not_null();
        lemma_string_body(source.advance(), seq!['"']);
    }
}

/// Screening moves the source forward over the same lines.
pub proof fn lemma_screened(source: SourceModel)
    requires
        source.wf(),
    ensures
        screened(source).wf(),
        moved_on(source, screened(source)),
    decreases source.remaining(),
{
    lemma_screening_round(source);
    if round_passed_comment(source) {
        lemma_screened(screening_round(source));
    }
}

/// The next token of a source is always there. Reading it moves the source
/// forward over the same lines; it is the end of the source only at the end
/// and always there; and any other token takes at least one character.
pub proof fn lemma_next_token(source: SourceModel)
    requires
        source.wf(),
    ensures
        next_token(source).token is Some,
        next_token(source).rest.wf(),
        moved_on(source, next_token(source).rest),
        next_token(source).token->0.kind == TokenKind::Eof ==> next_token(source).rest.at_end(),
        next_token(source).token->0.kind != TokenKind::Eof ==> next_token(source).rest.remaining()
            < source.remaining(),
        source.at_end() ==> next_token(source).token->0.kind == TokenKind::Eof
            && next_token(source).rest == source && next_token(source).token->0 == token_at(
            "eof"@,
            TokenKind::Eof,
            source,
        ),
{
    lemma_screened(source);
    lemma_token_at_position(screened(source));
    if source.at_end() {
        source.lemma_end();
        lemma_end_is_screened(source);
    }
    if !screened(source).at_end() {
        screened(source).lemma_advance();
    }
}

/// At the end of the source nothing is left to screen.
pub proof fn lemma_end_is_screened(source: SourceModel)
    requires
        source.wf(),
        source.at_end(),
    ensures
        screened(source) == source,
{
}

} // verus!
