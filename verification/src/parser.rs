use vstd::prelude::*;
use crate::error::{CirnoError, ErrorView};
use crate::project::{
    Attribute, AttributeView, Chip, ChipView, Color, Meta, Net, NetView, ObjectEnum, ObjectView,
    Pin, PinView, Value, ValueView, Vector2, Wire, views,
};
use crate::text::{
    chars_of, find_char, find_from, is_digit, is_lower, lemma_find_from_bounds, number_of,
    parse_number, string_of, text_eq, texts,
};

verus! {

/// The kinds of token of the description language.
#[derive(Clone, Copy, Debug, PartialEq, Eq, Structural)]
pub enum Token {
    Identifier,
    Keyword,
    Number,
    Ender,
    Separator,
}

/// The sets of characters that the tokens are made of.
#[derive(Clone, Copy, Debug, PartialEq, Eq, Structural)]
pub enum CharClass {
    Blank,
    Digit,
    Word,
    Path,
}

impl CharClass {
    /// Whether `c` belongs to the class: `Blank` is what separates tokens,
    /// `Word` a lower case letter or a digit, `Path` a word character or `/`.
    pub open spec fn holds(self, c: char) -> bool {
        match self {
            CharClass::Blank => c == ' ' || c == '\t' || c == '\n' || c == '\x0c',
            CharClass::Digit => is_digit(c),
            CharClass::Word => is_lower(c) || is_digit(c),
            CharClass::Path => is_lower(c) || is_digit(c) || c == '/',
        }
    }

    /// Whether `c` belongs to the class.
    pub fn contains(self, c: char) -> (b: bool)
        ensures
            b == self.holds(c),
    {
        match self {
            CharClass::Blank => c == ' ' || c == '\t' || c == '\n' || c == '\x0c',
            CharClass::Digit => c >= '0' && c <= '9',
            CharClass::Word => (c >= 'a' && c <= 'z') || (c >= '0' && c <= '9'),
            CharClass::Path => (c >= 'a' && c <= 'z') || (c >= '0' && c <= '9') || c == '/',
        }
    }
}

/// Where the longest run of characters of `class` that starts at `i` ends.
pub open spec fn run_end(s: Seq<char>, i: int, class: CharClass) -> int
    decreases s.len() - i,
{
    if 0 <= i < s.len() && class.holds(s[i]) {
        run_end(s, i + 1, class)
    } else {
        i
    }
}

/// A run ends at or after its start, and inside the text if it starts there.
pub proof fn lemma_run_end_bounds(s: Seq<char>, i: int, class: CharClass)
    ensures
        i <= run_end(s, i, class),
        0 <= i <= s.len() ==> run_end(s, i, class) <= s.len(),
    decreases s.len() - i,
{
    if 0 <= i < s.len() && class.holds(s[i]) {
        lemma_run_end_bounds(s, i + 1, class);
    }
}

/// The kind of the token that starts at `i`, where a character that is not
/// blank stands, and where the token ends. `None` is a character that
/// starts no token.
pub open spec fn token_at(s: Seq<char>, i: int) -> (Option<Token>, int) {
    let c = s[i];
    if c == ':' {
        (Some(Token::Separator), i + 1)
    } else if c == '.' {
        (Some(Token::Ender), i + 1)
    } else if is_digit(c) {
        (Some(Token::Number), run_end(s, i + 1, CharClass::Digit))
    } else if is_lower(c) {
        (Some(Token::Keyword), run_end(s, i + 1, CharClass::Path))
    } else if c == '\'' && i + 1 < s.len() && CharClass::Word.holds(s[i + 1]) {
        (Some(Token::Identifier), run_end(s, i + 2, CharClass::Word))
    } else {
        (None, i + 1)
    }
}

/// A token with its text.
#[derive(Debug, PartialEq, Eq)]
pub struct Lexeme {
    /// The kind of the token; `None` for a character that starts no token.
    pub token: Option<Token>,
    pub text: String,
}

/// The mathematical form of a `Lexeme`.
pub struct LexemeView {
    pub token: Option<Token>,
    pub text: Seq<char>,
}

impl View for Lexeme {
    type V = LexemeView;

    open spec fn view(&self) -> LexemeView {
        LexemeView { token: self.token, text: self.text@ }
    }
}

impl Clone for Lexeme {
    fn clone(&self) -> (r: Lexeme)
        ensures
            r@ == self@,
    {
        Lexeme { token: self.token, text: self.text.clone() }
    }
}

/// The mathematical forms of a list of lexemes.
pub open spec fn lexeme_views(lexemes: Seq<Lexeme>) -> Seq<LexemeView> {
    lexemes.map_values(|l: Lexeme| l@)
}

/// The tokens of the line `s` from the index `i` on. Blanks between tokens
/// are skipped. A character that starts no token ends the list, as its last
/// entry.
pub open spec fn lex_from(s: Seq<char>, i: int) -> Seq<LexemeView>
    decreases s.len() - i,
    via lex_from_decreases
{
    let start = run_end(s, i, CharClass::Blank);
    if i < 0 || start >= s.len() {
        Seq::empty()
    } else {
        let (token, end) = token_at(s, start);
        let first = LexemeView { token, text: s.subrange(start, end) };
        if token is None {
            seq![first]
        } else {
            seq![first] + lex_from(s, end)
        }
    }
}

#[via_fn]
proof fn lex_from_decreases(s: Seq<char>, i: int) {
    let start = run_end(s, i, CharClass::Blank);
    lemma_run_end_bounds(s, i, CharClass::Blank);
    if !(i < 0 || start >= s.len()) {
        lemma_token_at_bounds(s, start);
    }
}

/// A token is at least one character long and ends inside the text.
pub proof fn lemma_token_at_bounds(s: Seq<char>, i: int)
    requires
        0 <= i < s.len(),
    ensures
        i < token_at(s, i).1 <= s.len(),
{
    lemma_run_end_bounds(s, i + 1, CharClass::Digit);
    lemma_run_end_bounds(s, i + 1, CharClass::Path);
    if i + 1 < s.len() {
        lemma_run_end_bounds(s, i + 2, CharClass::Word);
    }
}

/// The tokens of a line.
pub open spec fn lex(s: Seq<char>) -> Seq<LexemeView> {
    lex_from(s, 0)
}

fn scan(line: &Vec<char>, from: usize, class: CharClass) -> (end: usize)
    requires
        from <= line@.len(),
    ensures
        end == run_end(line@, from as int, class),
        from <= end <= line@.len(),
{
    let n = line.len();
    let mut i: usize = from;
    while i < n && class.contains(line[i])
        invariant
            n == line@.len(),
            from <= i <= n,
            run_end(line@, from as int, class) == run_end(line@, i as int, class),
        decreases n - i,
    {
        i = i + 1;
    }
    i
}

/// Splits a line into its tokens.
pub fn tokenize(line: &Vec<char>) -> (r: Vec<Lexeme>)
    ensures
        lexeme_views(r@) == lex(line@),
{
    let n = line.len();
    let mut out: Vec<Lexeme> = Vec::new();
    let mut i: usize = 0;
    loop
        invariant_except_break
            lex(line@) == lexeme_views(out@) + lex_from(line@, i as int),
        invariant
            n == line@.len(),
            i <= n,
        ensures
            lexeme_views(out@) == lex(line@),
        decreases n - i,
    {
        let start = scan(line, i, CharClass::Blank);
        if start >= n {
            proof {
                assert(lex_from(line@, i as int) == Seq::<LexemeView>::empty());
                assert(lexeme_views(out@) + Seq::<LexemeView>::empty() == lexeme_views(out@));
            }
            break;
        }
        let c = line[start];
        let mut token: Option<Token> = None;
        let mut end: usize = start + 1;
        if c == ':' {
            token = Some(Token::Separator);
        } else if c == '.' {
            token = Some(Token::Ender);
        } else if c >= '0' && c <= '9' {
            token = Some(Token::Number);
            end = scan(line, start + 1, CharClass::Digit);
        } else if c >= 'a' && c <= 'z' {
            token = Some(Token::Keyword);
            end = scan(line, start + 1, CharClass::Path);
        } else if c == '\'' && start + 1 < n && CharClass::Word.contains(line[start + 1]) {
            token = Some(Token::Identifier);
            end = scan(line, start + 2, CharClass::Word);
        }
        proof {
            lemma_token_at_bounds(line@, start as int);
            assert(token_at(line@, start as int) == (token, end as int));
        }
        let lexeme = Lexeme { token, text: string_of(line, start, end) };
        let ghost before = out@;
        let ghost first = lexeme@;
        out.push(lexeme);
        proof {
            assert(lexeme_views(out@) == lexeme_views(before) + seq![first]);
            if token is None {
                assert(lex_from(line@, i as int) == seq![first]);
            } else {
                assert(lex_from(line@, i as int) == seq![first] + lex_from(line@, end as int));
                assert(lexeme_views(before) + (seq![first] + lex_from(line@, end as int))
                    == lexeme_views(before) + seq![first] + lex_from(line@, end as int));
            }
        }
        if token.is_none() {
            break;
        }
        i = end;
    }
    out
}

/// A cursor over the tokens of one line.
pub struct Lexer {
    pub tokens: Vec<Lexeme>,
    pub position: usize,
}

impl Lexer {
    /// The tokens of the line, those already read included.
    pub open spec fn items(&self) -> Seq<LexemeView> {
        lexeme_views(self.tokens@)
    }

    /// A cursor in front of the first token of `line`.
    pub fn new(line: &str) -> (l: Lexer)
        ensures
            l.items() == lex(line@),
            l.position == 0,
    {
        let chars = chars_of(line);
        Lexer { tokens: tokenize(&chars), position: 0 }
    }

    /// Reads the next token, if one is left.
    pub fn next(&mut self) -> (r: Option<Lexeme>)
        ensures
            final(self).items() == old(self).items(),
            match r {
                Some(l) => old(self).position < old(self).items().len() && l@ == old(
                    self,
                ).items()[old(self).position as int] && final(self).position == old(self).position
                    + 1,
                None => old(self).position >= old(self).items().len() && final(self).position
                    == old(self).position,
            },
    {
        if self.position < self.tokens.len() {
            let l = self.tokens[self.position].clone();
            self.position = self.position + 1;
            Some(l)
        } else {
            None
        }
    }
}

/// The number that the token at `i` stands for, as an argument of the
/// attribute `attribute`.
pub open spec fn number_at(toks: Seq<LexemeView>, i: int, attribute: Seq<char>) -> Result<
    u16,
    ErrorView,
> {
    if i < 0 || i >= toks.len() {
        Err(ErrorView::OutOfTokensExpectedNumber)
    } else {
        match toks[i].token {
            None => Err(ErrorView::UnrecognizedToken),
            Some(Token::Number) => match number_of(toks[i].text) {
                Some(n) => Ok(n),
                None => Err(ErrorView::InvalidValueForAttribute(toks[i].text, attribute)),
            },
            Some(t) => Err(ErrorView::UnexpectedTokenExpectedNumber(t)),
        }
    }
}

/// The text of the token at `i`, which has to be of the kind `want`.
pub open spec fn text_at(toks: Seq<LexemeView>, i: int, want: Token) -> Result<
    Seq<char>,
    ErrorView,
> {
    if i < 0 || i >= toks.len() {
        Err(ErrorView::OutOfTokens(want))
    } else {
        match toks[i].token {
            None => Err(ErrorView::UnrecognizedToken),
            Some(t) => if t == want {
                Ok(toks[i].text)
            } else {
                Err(ErrorView::UnexpectedToken(want, t))
            },
        }
    }
}

/// Where the cursor stands once a token was asked for at `i`: behind that
/// token, whatever it is, or at `i` where no token is left.
pub open spec fn after_token(toks: Seq<LexemeView>, i: int) -> int {
    if 0 <= i < toks.len() {
        i + 1
    } else {
        i
    }
}

/// Where the cursor stands once a cell was asked for at `i`: behind the
/// second number, or behind the token that is no number.
pub open spec fn vector_stop(toks: Seq<LexemeView>, i: int, attribute: Seq<char>) -> int {
    if number_at(toks, i, attribute) is Ok {
        after_token(toks, i + 1)
    } else {
        after_token(toks, i)
    }
}

/// The cell that the two tokens at `i` stand for.
pub open spec fn vector_at(toks: Seq<LexemeView>, i: int, attribute: Seq<char>) -> Result<
    Vector2,
    ErrorView,
> {
    match number_at(toks, i, attribute) {
        Err(e) => Err(e),
        Ok(x) => match number_at(toks, i + 1, attribute) {
            Err(e) => Err(e),
            Ok(y) => Ok(Vector2 { x, y }),
        },
    }
}

/// The color that a name stands for.
pub open spec fn color_of(name: Seq<char>) -> Result<Color, ErrorView> {
    if name == "red"@ {
        Ok(Color::Red)
    } else if name == "green"@ {
        Ok(Color::Green)
    } else if name == "yellow"@ {
        Ok(Color::Yellow)
    } else if name == "blue"@ {
        Ok(Color::Blue)
    } else if name == "magenta"@ {
        Ok(Color::Magenta)
    } else if name == "cyan"@ {
        Ok(Color::Cyan)
    } else {
        Err(ErrorView::InvalidColorAttribute(name))
    }
}

/// Where the list that starts at `i` stops: at the first token from there
/// that ends a list or is none, or behind the last token.
pub open spec fn list_end(toks: Seq<LexemeView>, i: int) -> int
    decreases toks.len() - i,
{
    if 0 <= i < toks.len() && toks[i].token is Some && toks[i].token != Some(Token::Ender) {
        list_end(toks, i + 1)
    } else {
        i
    }
}

/// A list ends at or after its start, and among the tokens if it starts there.
pub proof fn lemma_list_end_bounds(toks: Seq<LexemeView>, i: int)
    ensures
        i <= list_end(toks, i),
        0 <= i <= toks.len() ==> list_end(toks, i) <= toks.len(),
    decreases toks.len() - i,
{
    if 0 <= i < toks.len() && toks[i].token is Some && toks[i].token != Some(Token::Ender) {
        lemma_list_end_bounds(toks, i + 1);
    }
}

/// The texts of the tokens `toks[from..to]`.
pub open spec fn token_texts(toks: Seq<LexemeView>, from: int, to: int) -> Seq<Seq<char>> {
    Seq::new((to - from) as nat, |k: int| toks[from + k].text)
}

/// Where the cursor stands once a list was read from `i` on: behind the
/// token at which the list stops, or behind the last token.
pub open spec fn list_stop(toks: Seq<LexemeView>, i: int) -> int {
    if list_end(toks, i) < toks.len() {
        list_end(toks, i) + 1
    } else {
        list_end(toks, i)
    }
}

/// The list of labels that starts at `i`, and the index of the token after
/// it. Every token up to the one that ends the list is a label, whatever
/// its kind; the end of the line ends the list too.
pub open spec fn list_at(toks: Seq<LexemeView>, i: int) -> Result<(Seq<Seq<char>>, int), ErrorView> {
    let e = list_end(toks, i);
    if 0 <= e < toks.len() && toks[e].token is None {
        Err(ErrorView::UnrecognizedToken)
    } else {
        Ok((token_texts(toks, i, e), list_stop(toks, i)))
    }
}

/// Where the cursor stands once the arguments of a value of the kind
/// `kind` were read from `i` on: only a conjunction and a disjunction have
/// arguments.
pub open spec fn value_stop(kind: Seq<char>, toks: Seq<LexemeView>, i: int) -> int {
    if kind == "and"@ {
        list_stop(toks, i)
    } else if kind == "or"@ {
        list_stop(toks, i)
    } else {
        i
    }
}

/// Where the cursor stands once the arguments of the attribute `name` were
/// read from `i` on, whether that went well or not: behind the last token
/// that was looked at. For a name that is no attribute that is `i`: no
/// token is read.
pub open spec fn attribute_stop(name: Seq<char>, toks: Seq<LexemeView>, i: int) -> int {
    if name == "bounds"@ {
        vector_stop(toks, i, name)
    } else if name == "color"@ {
        after_token(toks, i)
    } else if name == "from"@ {
        vector_stop(toks, i, name)
    } else if name == "label"@ {
        after_token(toks, i)
    } else if name == "num"@ {
        after_token(toks, i)
    } else if name == "pos"@ {
        vector_stop(toks, i, name)
    } else if name == "to"@ {
        vector_stop(toks, i, name)
    } else if name == "type"@ {
        after_token(toks, i)
    } else if name == "value"@ {
        match text_at(toks, i, Token::Keyword) {
            Ok(kind) => value_stop(kind, toks, i + 1),
            Err(_) => after_token(toks, i),
        }
    } else if name == "y"@ {
        after_token(toks, i)
    } else {
        i
    }
}

/// The value of the kind `kind` whose arguments start at `i`, and the index
/// of the token after them.
pub open spec fn value_at(kind: Seq<char>, toks: Seq<LexemeView>, i: int) -> Result<
    (ValueView, int),
    ErrorView,
> {
    if kind == "and"@ {
        match list_at(toks, i) {
            Err(e) => Err(e),
            Ok((labels, j)) => Ok((ValueView::And(labels), j)),
        }
    } else if kind == "or"@ {
        match list_at(toks, i) {
            Err(e) => Err(e),
            Ok((labels, j)) => Ok((ValueView::Or(labels), j)),
        }
    } else if kind == "gnd"@ {
        Ok((ValueView::Gnd, i))
    } else if kind == "vcc"@ {
        Ok((ValueView::Vcc, i))
    } else {
        Err(ErrorView::InvalidValueAttribute(kind))
    }
}

/// The attribute with the name `name` whose arguments start at `i`, and the
/// index of the token after them.
pub open spec fn attribute_at(name: Seq<char>, toks: Seq<LexemeView>, i: int) -> Result<
    (AttributeView, int),
    ErrorView,
> {
    if name == "bounds"@ {
        match vector_at(toks, i, name) {
            Err(e) => Err(e),
            Ok(v) => Ok((AttributeView::Bounds(v), i + 2)),
        }
    } else if name == "color"@ {
        match text_at(toks, i, Token::Keyword) {
            Err(e) => Err(e),
            Ok(c) => match color_of(c) {
                Err(e) => Err(e),
                Ok(color) => Ok((AttributeView::Color(color), i + 1)),
            },
        }
    } else if name == "from"@ {
        match vector_at(toks, i, name) {
            Err(e) => Err(e),
            Ok(v) => Ok((AttributeView::From(v), i + 2)),
        }
    } else if name == "label"@ {
        match text_at(toks, i, Token::Identifier) {
            Err(e) => Err(e),
            Ok(l) => Ok((AttributeView::Label(l), i + 1)),
        }
    } else if name == "num"@ {
        match number_at(toks, i, name) {
            Err(e) => Err(e),
            Ok(n) => Ok((AttributeView::Num(n), i + 1)),
        }
    } else if name == "pos"@ {
        match vector_at(toks, i, name) {
            Err(e) => Err(e),
            Ok(v) => Ok((AttributeView::Position(v), i + 2)),
        }
    } else if name == "to"@ {
        match vector_at(toks, i, name) {
            Err(e) => Err(e),
            Ok(v) => Ok((AttributeView::To(v), i + 2)),
        }
    } else if name == "type"@ {
        match text_at(toks, i, Token::Keyword) {
            Err(e) => Err(e),
            Ok(t) => Ok((AttributeView::Type(t), i + 1)),
        }
    } else if name == "value"@ {
        match text_at(toks, i, Token::Keyword) {
            Err(e) => Err(e),
            Ok(kind) => match value_at(kind, toks, i + 1) {
                Err(e) => Err(e),
                Ok((v, j)) => Ok((AttributeView::Value(v), j)),
            },
        }
    } else if name == "y"@ {
        match number_at(toks, i, name) {
            Err(e) => Err(e),
            Ok(y) => Ok((AttributeView::YCoordinate(y), i + 1)),
        }
    } else {
        Err(ErrorView::InvalidAttribute(name))
    }
}

/// The arguments of an attribute end at or after their start, among the tokens.
pub proof fn lemma_attribute_at_bounds(name: Seq<char>, toks: Seq<LexemeView>, i: int)
    requires
        0 <= i <= toks.len(),
    ensures
        attribute_at(name, toks, i) matches Ok((_, j)) ==> i <= j <= toks.len(),
{
    lemma_list_end_bounds(toks, i + 1);
}

/// A new object of the kind that `kind` names.
pub open spec fn default_object(kind: Seq<char>) -> Result<ObjectView, ErrorView> {
    if kind == "chip"@ {
        Ok(ObjectView::Chip(ChipView::blank()))
    } else if kind == "meta"@ {
        Ok(ObjectView::Meta(Meta::blank()))
    } else if kind == "net"@ {
        Ok(ObjectView::Net(NetView::blank()))
    } else if kind == "pin"@ {
        Ok(ObjectView::Pin(PinView::blank()))
    } else if kind == "wire"@ {
        Ok(ObjectView::Wire(Wire::blank()))
    } else {
        Err(ErrorView::InvalidObjectType(kind))
    }
}

/// The object `object` with the attributes applied that the tokens from `i`
/// on spell out. Each attribute starts with a keyword, its name.
pub open spec fn attributes_from(object: ObjectView, toks: Seq<LexemeView>, i: int) -> Result<
    ObjectView,
    ErrorView,
>
    decreases toks.len() - i,
    via attributes_from_decreases
{
    if i < 0 || i >= toks.len() {
        Ok(object)
    } else {
        match toks[i].token {
            None => Err(ErrorView::UnrecognizedToken),
            Some(Token::Keyword) => match attribute_at(toks[i].text, toks, i + 1) {
                Err(e) => Err(e),
                Ok((a, j)) => match object.apply(a) {
                    Err(e) => Err(e),
                    Ok(o) => attributes_from(o, toks, j),
                },
            },
            Some(t) => Err(ErrorView::UnexpectedToken(Token::Keyword, t)),
        }
    }
}

#[via_fn]
proof fn attributes_from_decreases(object: ObjectView, toks: Seq<LexemeView>, i: int) {
    if 0 <= i < toks.len() {
        lemma_attribute_at_bounds(toks[i].text, toks, i + 1);
    }
}

/// Where the cursor stands once the attributes of `object` were read from
/// `i` on, whether that went well or not: behind the last token that was
/// looked at.
pub open spec fn attributes_stop(object: ObjectView, toks: Seq<LexemeView>, i: int) -> int
    decreases toks.len() - i,
    via attributes_stop_decreases
{
    if i < 0 || i >= toks.len() {
        i
    } else {
        match toks[i].token {
            Some(Token::Keyword) => match attribute_at(toks[i].text, toks, i + 1) {
                Err(_) => attribute_stop(toks[i].text, toks, i + 1),
                Ok((a, j)) => match object.apply(a) {
                    Err(_) => j,
                    Ok(o) => attributes_stop(o, toks, j),
                },
            },
            _ => i + 1,
        }
    }
}

#[via_fn]
proof fn attributes_stop_decreases(object: ObjectView, toks: Seq<LexemeView>, i: int) {
    if 0 <= i < toks.len() {
        lemma_attribute_at_bounds(toks[i].text, toks, i + 1);
    }
}

/// Where the cursor stands once an object of the kind `kind` was read from
/// `i` on: at `i` where `kind` names no kind of object.
pub open spec fn finished_stop(kind: Seq<char>, toks: Seq<LexemeView>, i: int) -> int {
    match default_object(kind) {
        Err(_) => i,
        Ok(object) => attributes_stop(object, toks, i),
    }
}

/// The object that the tokens of one line spell out: `:`, the kind of the
/// object, its attributes. The finished object is checked by itself.
pub open spec fn object_of(toks: Seq<LexemeView>) -> Result<ObjectView, ErrorView> {
    match text_at(toks, 0, Token::Separator) {
        Err(e) => Err(e),
        Ok(_) => match text_at(toks, 1, Token::Keyword) {
            Err(e) => Err(e),
            Ok(kind) => finished_object(kind, toks, 2),
        },
    }
}

/// The object of the kind `kind` with the attributes from the token `i` on,
/// checked by itself.
pub open spec fn finished_object(kind: Seq<char>, toks: Seq<LexemeView>, i: int) -> Result<
    ObjectView,
    ErrorView,
> {
    match default_object(kind) {
        Err(e) => Err(e),
        Ok(object) => match attributes_from(object, toks, i) {
            Err(e) => Err(e),
            Ok(o) => match o.shape_error() {
                Some(e) => Err(e),
                None => Ok(o),
            },
        },
    }
}

/// The object that one line describes.
pub open spec fn parse_line(line: Seq<char>) -> Result<ObjectView, ErrorView> {
    object_of(lex(line))
}

/// The line that starts at `i`, without the line feed that ends it and
/// without a carriage return in front of that line feed.
pub open spec fn line_at(s: Seq<char>, i: int) -> Seq<char> {
    let e = find_from(s, '\n', i);
    if i < e < s.len() && s[e - 1] == '\r' {
        s.subrange(i, e - 1)
    } else {
        s.subrange(i, e)
    }
}

/// Where the line after the one that starts at `i` starts.
pub open spec fn next_line(s: Seq<char>, i: int) -> int {
    let e = find_from(s, '\n', i);
    if e < s.len() {
        e + 1
    } else {
        e
    }
}

/// `objects` in front of what `rest` holds, or the error of `rest`.
pub open spec fn prepend(objects: Seq<ObjectView>, rest: Result<Seq<ObjectView>, ErrorView>) -> Result<
    Seq<ObjectView>,
    ErrorView,
> {
    match rest {
        Ok(more) => Ok(objects + more),
        Err(e) => Err(e),
    }
}

/// The objects that the lines of `s` from the index `i` on describe, in
/// their order, or the error of the first line that has one. Empty lines
/// describe nothing.
pub open spec fn parse_from(s: Seq<char>, i: int) -> Result<Seq<ObjectView>, ErrorView>
    decreases s.len() - i,
    via parse_from_decreases
{
    if i < 0 || i >= s.len() {
        Ok(Seq::empty())
    } else if line_at(s, i).len() == 0 {
        parse_from(s, next_line(s, i))
    } else {
        match parse_line(line_at(s, i)) {
            Err(e) => Err(e),
            Ok(o) => prepend(seq![o], parse_from(s, next_line(s, i))),
        }
    }
}

#[via_fn]
proof fn parse_from_decreases(s: Seq<char>, i: int) {
    lemma_find_from_bounds(s, '\n', i);
}

/// The objects that a source text describes.
pub open spec fn parse_text(s: Seq<char>) -> Result<Seq<ObjectView>, ErrorView> {
    parse_from(s, 0)
}

/// Reads one token, which has to be a number that fits a coordinate.
pub fn expect_number(lexer: &mut Lexer, attribute: &str) -> (r: Result<u16, CirnoError>)
    ensures
        final(lexer).items() == old(lexer).items(),
        final(lexer).position == after_token(old(lexer).items(), old(lexer).position as int),
        match number_at(old(lexer).items(), old(lexer).position as int, attribute@) {
            Ok(n) => r is Ok && r->Ok_0 == n,
            Err(e) => r is Err && r->Err_0@ == e,
        },
{
    match lexer.next() {
        None => Err(CirnoError::OutOfTokensExpectedNumber),
        Some(lexeme) => match lexeme.token {
            None => Err(CirnoError::UnrecognizedToken),
            Some(Token::Number) => match parse_number(lexeme.text.as_str()) {
                Some(n) => Ok(n),
                None => Err(
                    CirnoError::InvalidValueForAttribute(lexeme.text, attribute.to_owned()),
                ),
            },
            Some(t) => Err(CirnoError::UnexpectedTokenExpectedNumber(t)),
        },
    }
}

/// Reads one token, which has to be of the kind `want`, and gives its text.
pub fn expect_token(lexer: &mut Lexer, want: Token) -> (r: Result<String, CirnoError>)
    ensures
        final(lexer).items() == old(lexer).items(),
        final(lexer).position == after_token(old(lexer).items(), old(lexer).position as int),
        match text_at(old(lexer).items(), old(lexer).position as int, want) {
            Ok(text) => r is Ok && r->Ok_0@ == text,
            Err(e) => r is Err && r->Err_0@ == e,
        },
{
    match lexer.next() {
        None => Err(CirnoError::OutOfTokens(want)),
        Some(lexeme) => match lexeme.token {
            None => Err(CirnoError::UnrecognizedToken),
            Some(t) => if t == want {
                Ok(lexeme.text)
            } else {
                Err(CirnoError::UnexpectedToken(want, t))
            },
        },
    }
}

/// Reads two numbers, the column and the row of a cell.
pub fn expect_vector(lexer: &mut Lexer, attribute: &str) -> (r: Result<Vector2, CirnoError>)
    ensures
        final(lexer).items() == old(lexer).items(),
        final(lexer).position == vector_stop(
            old(lexer).items(),
            old(lexer).position as int,
            attribute@,
        ),
        match vector_at(old(lexer).items(), old(lexer).position as int, attribute@) {
            Ok(v) => r is Ok && r->Ok_0 == v && final(lexer).position == old(lexer).position + 2,
            Err(e) => r is Err && r->Err_0@ == e,
        },
{
    let x: u16 = expect_number(lexer, attribute)?;
    let y: u16 = expect_number(lexer, attribute)?;
    Ok(Vector2 { x, y })
}

/// The color that the keyword `token` names.
pub fn parse_attribute_color(token: &str) -> (r: Result<Color, CirnoError>)
    ensures
        match color_of(token@) {
            Ok(c) => r is Ok && r->Ok_0 == c,
            Err(e) => r is Err && r->Err_0@ == e,
        },
{
    if text_eq(token, "red") {
        Ok(Color::Red)
    } else if text_eq(token, "green") {
        Ok(Color::Green)
    } else if text_eq(token, "yellow") {
        Ok(Color::Yellow)
    } else if text_eq(token, "blue") {
        Ok(Color::Blue)
    } else if text_eq(token, "magenta") {
        Ok(Color::Magenta)
    } else if text_eq(token, "cyan") {
        Ok(Color::Cyan)
    } else {
        Err(CirnoError::InvalidColorAttribute(token.to_owned()))
    }
}

/// Reads the labels of a list, up to and with the token that ends it.
#[verifier::loop_isolation(false)]
pub fn consume_until_ender(lexer: &mut Lexer) -> (r: Result<Vec<String>, CirnoError>)
    ensures
        final(lexer).items() == old(lexer).items(),
        final(lexer).position == list_stop(old(lexer).items(), old(lexer).position as int),
        match list_at(old(lexer).items(), old(lexer).position as int) {
            Ok((labels, j)) => r is Ok && texts(r->Ok_0@) == labels && final(lexer).position == j,
            Err(e) => r is Err && r->Err_0@ == e,
        },
{
    let mut values: Vec<String> = Vec::new();
    let ghost toks = lexer.items();
    let ghost start = lexer.position as int;
    proof {
        assert(texts(values@) =~= token_texts(toks, start, start));
    }
    if lexer.position > lexer.tokens.len() {
        proof {
            assert(list_end(toks, start) == start);
        }
        return Ok(values);
    }
    loop
        invariant
            lexer.items() == toks,
            start <= lexer.position <= toks.len(),
            list_end(toks, start) == list_end(toks, lexer.position as int),
            texts(values@) == token_texts(toks, start, lexer.position as int),
        decreases toks.len() - lexer.position,
    {
        let ghost at = lexer.position as int;
        match lexer.next() {
            None => {
                return Ok(values);
            },
            Some(lexeme) => {
                match lexeme.token {
                    None => {
                        return Err(CirnoError::UnrecognizedToken);
                    },
                    Some(Token::Ender) => {
                        return Ok(values);
                    },
                    Some(_) => {
                        let ghost before = values@;
                        values.push(lexeme.text);
                        proof {
                            assert(texts(values@) =~= texts(before).push(toks[at].text));
                            assert(token_texts(toks, start, at + 1) =~= token_texts(
                                toks,
                                start,
                                at,
                            ).push(toks[at].text));
                        }
                    },
                }
            },
        }
    }
}

/// Reads the value of the kind `token`: the labels of a conjunction or a
/// disjunction come from the tokens that follow.
pub fn parse_attribute_value(token: &str, lexer: &mut Lexer) -> (r: Result<Value, CirnoError>)
    ensures
        final(lexer).items() == old(lexer).items(),
        final(lexer).position == value_stop(
            token@,
            old(lexer).items(),
            old(lexer).position as int,
        ),
        match value_at(token@, old(lexer).items(), old(lexer).position as int) {
            Ok((v, j)) => r is Ok && r->Ok_0@ == v && final(lexer).position == j,
            Err(e) => r is Err && r->Err_0@ == e,
        },
{
    if text_eq(token, "and") {
        let values: Vec<String> = consume_until_ender(lexer)?;
        Ok(Value::And(values))
    } else if text_eq(token, "or") {
        let values: Vec<String> = consume_until_ender(lexer)?;
        Ok(Value::Or(values))
    } else if text_eq(token, "gnd") {
        Ok(Value::Gnd)
    } else if text_eq(token, "vcc") {
        Ok(Value::Vcc)
    } else {
        Err(CirnoError::InvalidValueAttribute(token.to_owned()))
    }
}

/// Reads the arguments of the attribute with the name `token`.
pub fn parse_attribute(token: &str, lexer: &mut Lexer) -> (r: Result<Attribute, CirnoError>)
    ensures
        final(lexer).items() == old(lexer).items(),
        final(lexer).position == attribute_stop(
            token@,
            old(lexer).items(),
            old(lexer).position as int,
        ),
        match attribute_at(token@, old(lexer).items(), old(lexer).position as int) {
            Ok((a, j)) => r is Ok && r->Ok_0@ == a && final(lexer).position == j,
            Err(e) => r is Err && r->Err_0@ == e,
        },
{
    if text_eq(token, "bounds") {
        let v = expect_vector(lexer, token)?;
        Ok(Attribute::Bounds(v))
    } else if text_eq(token, "color") {
        let c_string = expect_token(lexer, Token::Keyword)?;
        let c = parse_attribute_color(c_string.as_str())?;
        Ok(Attribute::Color(c))
    } else if text_eq(token, "from") {
        let v = expect_vector(lexer, token)?;
        Ok(Attribute::From(v))
    } else if text_eq(token, "label") {
        let label = expect_token(lexer, Token::Identifier)?;
        Ok(Attribute::Label(label))
    } else if text_eq(token, "num") {
        let num: u16 = expect_number(lexer, token)?;
        Ok(Attribute::Num(num))
    } else if text_eq(token, "pos") {
        let v = expect_vector(lexer, token)?;
        Ok(Attribute::Position(v))
    } else if text_eq(token, "to") {
        let v = expect_vector(lexer, token)?;
        Ok(Attribute::To(v))
    } else if text_eq(token, "type") {
        let t = expect_token(lexer, Token::Keyword)?;
        Ok(Attribute::Type(t))
    } else if text_eq(token, "value") {
        let v_type = expect_token(lexer, Token::Keyword)?;
        let v = parse_attribute_value(v_type.as_str(), lexer)?;
        Ok(Attribute::Value(v))
    } else if text_eq(token, "y") {
        let y: u16 = expect_number(lexer, token)?;
        Ok(Attribute::YCoordinate(y))
    } else {
        Err(CirnoError::InvalidAttribute(token.to_owned()))
    }
}

/// A new object of the kind that `token` names.
pub fn object_default(token: &str) -> (r: Result<ObjectEnum, CirnoError>)
    ensures
        match default_object(token@) {
            Ok(o) => r is Ok && r->Ok_0@ == o,
            Err(e) => r is Err && r->Err_0@ == e,
        },
{
    if text_eq(token, "chip") {
        Ok(ObjectEnum::Chip(Chip::default()))
    } else if text_eq(token, "meta") {
        Ok(ObjectEnum::Meta(Meta::default()))
    } else if text_eq(token, "net") {
        Ok(ObjectEnum::Net(Net::default()))
    } else if text_eq(token, "pin") {
        Ok(ObjectEnum::Pin(Pin::default()))
    } else if text_eq(token, "wire") {
        Ok(ObjectEnum::Wire(Wire::default()))
    } else {
        Err(CirnoError::InvalidObjectType(token.to_owned()))
    }
}

/// Reads the attributes of an object of the kind `token` and checks the
/// finished object by itself.
#[verifier::loop_isolation(false)]
pub fn parse_object(token: &str, lexer: &mut Lexer) -> (r: Result<ObjectEnum, CirnoError>)
    ensures
        final(lexer).items() == old(lexer).items(),
        final(lexer).position == finished_stop(
            token@,
            old(lexer).items(),
            old(lexer).position as int,
        ),
        match finished_object(token@, old(lexer).items(), old(lexer).position as int) {
            Ok(o) => r is Ok && r->Ok_0@ == o,
            Err(e) => r is Err && r->Err_0@ == e,
        },
{
    let mut object = object_default(token)?;
    let ghost toks = lexer.items();
    let ghost whole = attributes_from(object@, toks, lexer.position as int);
    let ghost stop = attributes_stop(object@, toks, lexer.position as int);
    if lexer.position > lexer.tokens.len() {
        object.verify_shape()?;
        return Ok(object);
    }
    loop
        invariant
            lexer.items() == toks,
            lexer.position <= toks.len(),
            attributes_from(object@, toks, lexer.position as int) == whole,
            attributes_stop(object@, toks, lexer.position as int) == stop,
        decreases toks.len() - lexer.position,
    {
        let ghost at = lexer.position as int;
        match lexer.next() {
            None => {
                break;
            },
            Some(lexeme) => {
                match lexeme.token {
                    None => {
                        return Err(CirnoError::UnrecognizedToken);
                    },
                    Some(Token::Keyword) => {
                        proof {
                            lemma_attribute_at_bounds(toks[at].text, toks, at + 1);
                        }
                        let attribute = parse_attribute(lexeme.text.as_str(), lexer)?;
                        object.apply_attribute(attribute)?;
                    },
                    Some(t) => {
                        return Err(CirnoError::UnexpectedToken(Token::Keyword, t));
                    },
                }
            },
        }
    }
    object.verify_shape()?;
    Ok(object)
}

fn slice_of(v: &Vec<char>, from: usize, to: usize) -> (r: Vec<char>)
    requires
        from <= to <= v@.len(),
    ensures
        r@ == v@.subrange(from as int, to as int),
{
    let mut r: Vec<char> = Vec::new();
    let mut i: usize = from;
    while i < to
        invariant
            from <= i <= to <= v@.len(),
            r@ == v@.subrange(from as int, i as int),
        decreases to - i,
    {
        r.push(v[i]);
        i = i + 1;
    }
    r
}

fn parse_tokens(tokens: Vec<Lexeme>) -> (r: Result<ObjectEnum, CirnoError>)
    ensures
        match object_of(lexeme_views(tokens@)) {
            Ok(o) => r is Ok && r->Ok_0@ == o,
            Err(e) => r is Err && r->Err_0@ == e,
        },
{
    let mut lexer = Lexer { tokens, position: 0 };
    expect_token(&mut lexer, Token::Separator)?;
    let object_type = expect_token(&mut lexer, Token::Keyword)?;
    parse_object(object_type.as_str(), &mut lexer)
}

/// Reads a source text: one object on each line that is not empty.
pub fn parse(contents: &str) -> (r: Result<Vec<ObjectEnum>, CirnoError>)
    ensures
        match parse_text(contents@) {
            Ok(objects) => r is Ok && views(r->Ok_0@) == objects,
            Err(e) => r is Err && r->Err_0@ == e,
        },
{
    let all = chars_of(contents);
    let n = all.len();
    let mut ast: Vec<ObjectEnum> = Vec::new();
    let mut i: usize = 0;
    proof {
        assert(views(ast@) =~= Seq::<ObjectView>::empty());
        assert(views(ast@) + Seq::<ObjectView>::empty() =~= views(ast@));
    }
    while i < n
        invariant
            all@ == contents@,
            n == all@.len(),
            i <= n,
            parse_text(all@) == prepend(views(ast@), parse_from(all@, i as int)),
        decreases n - i,
    {
        let e = find_char(&all, '\n', i);
        let next: usize = if e < n { e + 1 } else { e };
        let stop: usize = if i < e && e < n && all[e - 1] == '\r' { e - 1 } else { e };
        proof {
            assert(all@.subrange(i as int, stop as int) == line_at(all@, i as int));
            assert(next == next_line(all@, i as int));
        }
        if stop > i {
            let line = slice_of(&all, i, stop);
            let object = parse_tokens(tokenize(&line))?;
            let ghost before = views(ast@);
            let ghost o = object@;
            ast.push(object);
            proof {
                assert(views(ast@) =~= before + seq![o]);
                let rest = parse_from(all@, next as int);
                if rest is Ok {
                    assert(before + (seq![o] + rest->Ok_0) =~= before + seq![o] + rest->Ok_0);
                }
            }
        }
        i = next;
    }
    proof {
        assert(views(ast@) + Seq::<ObjectView>::empty() =~= views(ast@));
    }
    Ok(ast)
}

} // verus!
