use vstd::prelude::*;

use crate::text::{chars_of, text_matches};

verus! {

/// The category of a token: a literal, a keyword, an operator, a punctuator,
/// or one of the two sentinels `Unknown` and `EndOfToken`.
#[derive(Debug, PartialEq, Eq, Structural, Hash, Clone, Copy)]
pub enum Kind {
    Unknown,
    EndOfToken,

    NullLiteral,
    TrueLiteral,
    FalseLiteral,
    NumberLiteral,
    StringLiteral,
    Identifier,

    Function,
    Return,
    Variable,
    For,
    Break,
    Continue,
    If,
    Elif,
    Else,
    Print,
    PrintLine,

    LogicalAnd,
    LogicalOr,

    Assignment,
    Add,
    Subtract,
    Multiply,
    Divide,
    Modulo,

    Equal,
    NotEqual,
    LessThan,
    GreaterThan,
    LessOrEqual,
    GreaterOrEqual,

    Comma,
    Colon,
    Semicolon,
    LeftParen,
    RightParen,
    LeftBrace,
    RightBrace,
    LeftBracket,
    RightBracket,
}

/// A piece of source text together with its category.
#[derive(Debug, Clone, PartialEq, Eq)]
pub struct Token {
    pub kind: Kind,
    /// The text the token was scanned from; for a string literal, the text
    /// between the quotes; empty for `EndOfToken`.
    pub string: String,
}

impl View for Token {
    type V = (Kind, Seq<char>);

    open spec fn view(&self) -> (Kind, Seq<char>) {
        (self.kind, self.string@)
    }
}

impl Token {
    pub fn new(kind: Kind, string: String) -> (r: Token)
        ensures
            r@ == (kind, string@),
    {
        Token { kind, string }
    }
}

/// The symbol table: the canonical text of every kind. Keywords, operators
/// and punctuators map to their surface form; the literal kinds that have no
/// single surface form and the sentinels map to a display name starting
/// with `#`, which no scanned lexeme can equal.
pub open spec fn lexeme_of(kind: Kind) -> Seq<char> {
    match kind {
        Kind::Unknown => "#unknown"@,
        Kind::EndOfToken => "#EndOfToken"@,
        Kind::NullLiteral => "null"@,
        Kind::TrueLiteral => "true"@,
        Kind::FalseLiteral => "false"@,
        Kind::NumberLiteral => "#Number"@,
        Kind::StringLiteral => "#String"@,
        Kind::Identifier => "#identifier"@,
        Kind::Function => "function"@,
        Kind::Return => "return"@,
        Kind::Variable => "var"@,
        Kind::For => "for"@,
        Kind::Break => "break"@,
        Kind::Continue => "continue"@,
        Kind::If => "if"@,
        Kind::Elif => "elif"@,
        Kind::Else => "else"@,
        Kind::Print => "print"@,
        Kind::PrintLine => "printLine"@,
        Kind::LogicalAnd => "and"@,
        Kind::LogicalOr => "or"@,
        Kind::Assignment => "="@,
        Kind::Add => "+"@,
        Kind::Subtract => "-"@,
        Kind::Multiply => "*"@,
        Kind::Divide => "/"@,
        Kind::Modulo => "%"@,
        Kind::Equal => "=="@,
        Kind::NotEqual => "!="@,
        Kind::LessThan => "<"@,
        Kind::GreaterThan => ">"@,
        Kind::LessOrEqual => "<="@,
        Kind::GreaterOrEqual => ">="@,
        Kind::Comma => ","@,
        Kind::Colon => ":"@,
        Kind::Semicolon => ";"@,
        Kind::LeftParen => "("@,
        Kind::RightParen => ")"@,
        Kind::LeftBrace => "{"@,
        Kind::RightBrace => "}"@,
        Kind::LeftBracket => "["@,
        Kind::RightBracket => "]"@,
    }
}

/// The kind whose canonical text is `s`, or `Unknown` when there is none.
pub open spec fn kind_of(s: Seq<char>) -> Kind {
    if exists|k: Kind| lexeme_of(k) == s {
        choose|k: Kind| lexeme_of(k) == s
    } else {
        Kind::Unknown
    }
}

/// No two kinds share a canonical text.
pub proof fn lemma_lexeme_injective(a: Kind, b: Kind)
    requires
        lexeme_of(a) == lexeme_of(b),
    ensures
        a == b,
{
    reveal_strlit("#unknown");
    reveal_strlit("#EndOfToken");
    reveal_strlit("null");
    reveal_strlit("true");
    reveal_strlit("false");
    reveal_strlit("#Number");
    reveal_strlit("#String");
    reveal_strlit("#identifier");
    reveal_strlit("function");
    reveal_strlit("return");
    reveal_strlit("var");
    reveal_strlit("for");
    reveal_strlit("break");
    reveal_strlit("continue");
    reveal_strlit("if");
    reveal_strlit("elif");
    reveal_strlit("else");
    reveal_strlit("print");
    reveal_strlit("printLine");
    reveal_strlit("and");
    reveal_strlit("or");
    reveal_strlit("=");
    reveal_strlit("+");
    reveal_strlit("-");
    reveal_strlit("*");
    reveal_strlit("/");
    reveal_strlit("%");
    reveal_strlit("==");
    reveal_strlit("!=");
    reveal_strlit("<");
    reveal_strlit(">");
    reveal_strlit("<=");
    reveal_strlit(">=");
    reveal_strlit(",");
    reveal_strlit(":");
    reveal_strlit(";");
    reveal_strlit("(");
    reveal_strlit(")");
    reveal_strlit("{");
    reveal_strlit("}");
    reveal_strlit("[");
    reveal_strlit("]");
    let (x, y) = (lexeme_of(a), lexeme_of(b));
    assert(x.len() == y.len() && x[0] == y[0] && x[1] == y[1] && x[2] == y[2]);
}

/// Looking up the canonical text of a kind gives that kind back.
pub proof fn lemma_kind_of_lexeme(k: Kind)
    ensures
        kind_of(lexeme_of(k)) == k,
{
    let c = choose|c: Kind| lexeme_of(c) == lexeme_of(k);
    lemma_lexeme_injective(c, k);
}

/// A kind found by looking up a text has that text as its canonical one.
pub proof fn lemma_kind_of_found(s: Seq<char>)
    requires
        kind_of(s) != Kind::Unknown,
    ensures
        lexeme_of(kind_of(s)) == s,
{
}

/// Round trip: for a text that is the canonical text of some kind, the text
/// of the kind looked up for it is that text again.
pub proof fn lemma_round_trip(s: Seq<char>)
    requires
        exists|k: Kind| lexeme_of(k) == s,
    ensures
        lexeme_of(kind_of(s)) == s,
{
}

/// The canonical text of `kind`.
pub fn to_string(kind: Kind) -> (r: &'static str)
    ensures
        r@ == lexeme_of(kind),
{
    match kind {
        Kind::Unknown => "#unknown",
        Kind::EndOfToken => "#EndOfToken",
        Kind::NullLiteral => "null",
        Kind::TrueLiteral => "true",
        Kind::FalseLiteral => "false",
        Kind::NumberLiteral => "#Number",
        Kind::StringLiteral => "#String",
        Kind::Identifier => "#identifier",
        Kind::Function => "function",
        Kind::Return => "return",
        Kind::Variable => "var",
        Kind::For => "for",
        Kind::Break => "break",
        Kind::Continue => "continue",
        Kind::If => "if",
        Kind::Elif => "elif",
        Kind::Else => "else",
        Kind::Print => "print",
        Kind::PrintLine => "printLine",
        Kind::LogicalAnd => "and",
        Kind::LogicalOr => "or",
        Kind::Assignment => "=",
        Kind::Add => "+",
        Kind::Subtract => "-",
        Kind::Multiply => "*",
        Kind::Divide => "/",
        Kind::Modulo => "%",
        Kind::Equal => "==",
        Kind::NotEqual => "!=",
        Kind::LessThan => "<",
        Kind::GreaterThan => ">",
        Kind::LessOrEqual => "<=",
        Kind::GreaterOrEqual => ">=",
        Kind::Comma => ",",
        Kind::Colon => ":",
        Kind::Semicolon => ";",
        Kind::LeftParen => "(",
        Kind::RightParen => ")",
        Kind::LeftBrace => "{",
        Kind::RightBrace => "}",
        Kind::LeftBracket => "[",
        Kind::RightBracket => "]",
    }
}

/// The kind whose canonical text is `cs[from..to]`, or `Unknown` when there is none.
pub fn lookup_kind(cs: &[char], from: usize, to: usize) -> (r: Kind)
    requires
        from <= to <= cs@.len(),
    ensures
        r == kind_of(cs@.subrange(from as int, to as int)),
{
    let ghost t = cs@.subrange(from as int, to as int);
    let r = if text_matches(cs, from, to, to_string(Kind::Unknown)) {
        Kind::Unknown
    } else if text_matches(cs, from, to, to_string(Kind::EndOfToken)) {
        Kind::EndOfToken
    } else if text_matches(cs, from, to, to_string(Kind::NullLiteral)) {
        Kind::NullLiteral
    } else if text_matches(cs, from, to, to_string(Kind::TrueLiteral)) {
        Kind::TrueLiteral
    } else if text_matches(cs, from, to, to_string(Kind::FalseLiteral)) {
        Kind::FalseLiteral
    } else if text_matches(cs, from, to, to_string(Kind::NumberLiteral)) {
        Kind::NumberLiteral
    } else if text_matches(cs, from, to, to_string(Kind::StringLiteral)) {
        Kind::StringLiteral
    } else if text_matches(cs, from, to, to_string(Kind::Identifier)) {
        Kind::Identifier
    } else if text_matches(cs, from, to, to_string(Kind::Function)) {
        Kind::Function
    } else if text_matches(cs, from, to, to_string(Kind::Return)) {
        Kind::Return
    } else if text_matches(cs, from, to, to_string(Kind::Variable)) {
        Kind::Variable
    } else if text_matches(cs, from, to, to_string(Kind::For)) {
        Kind::For
    } else if text_matches(cs, from, to, to_string(Kind::Break)) {
        Kind::Break
    } else if text_matches(cs, from, to, to_string(Kind::Continue)) {
        Kind::Continue
    } else if text_matches(cs, from, to, to_string(Kind::If)) {
        Kind::If
    } else if text_matches(cs, from, to, to_string(Kind::Elif)) {
        Kind::Elif
    } else if text_matches(cs, from, to, to_string(Kind::Else)) {
        Kind::Else
    } else if text_matches(cs, from, to, to_string(Kind::Print)) {
        Kind::Print
    } else if text_matches(cs, from, to, to_string(Kind::PrintLine)) {
        Kind::PrintLine
    } else if text_matches(cs, from, to, to_string(Kind::LogicalAnd)) {
        Kind::LogicalAnd
    } else if text_matches(cs, from, to, to_string(Kind::LogicalOr)) {
        Kind::LogicalOr
    } else if text_matches(cs, from, to, to_string(Kind::Assignment)) {
        Kind::Assignment
    } else if text_matches(cs, from, to, to_string(Kind::Add)) {
        Kind::Add
    } else if text_matches(cs, from, to, to_string(Kind::Subtract)) {
        Kind::Subtract
    } else if text_matches(cs, from, to, to_string(Kind::Multiply)) {
        Kind::Multiply
    } else if text_matches(cs, from, to, to_string(Kind::Divide)) {
        Kind::Divide
    } else if text_matches(cs, from, to, to_string(Kind::Modulo)) {
        Kind::Modulo
    } else if text_matches(cs, from, to, to_string(Kind::Equal)) {
        Kind::Equal
    } else if text_matches(cs, from, to, to_string(Kind::NotEqual)) {
        Kind::NotEqual
    } else if text_matches(cs, from, to, to_string(Kind::LessThan)) {
        Kind::LessThan
    } else if text_matches(cs, from, to, to_string(Kind::GreaterThan)) {
        Kind::GreaterThan
    } else if text_matches(cs, from, to, to_string(Kind::LessOrEqual)) {
        Kind::LessOrEqual
    } else if text_matches(cs, from, to, to_string(Kind::GreaterOrEqual)) {
        Kind::GreaterOrEqual
    } else if text_matches(cs, from, to, to_string(Kind::Comma)) {
        Kind::Comma
    } else if text_matches(cs, from, to, to_string(Kind::Colon)) {
        Kind::Colon
    } else if text_matches(cs, from, to, to_string(Kind::Semicolon)) {
        Kind::Semicolon
    } else if text_matches(cs, from, to, to_string(Kind::LeftParen)) {
        Kind::LeftParen
    } else if text_matches(cs, from, to, to_string(Kind::RightParen)) {
        Kind::RightParen
    } else if text_matches(cs, from, to, to_string(Kind::LeftBrace)) {
        Kind::LeftBrace
    } else if text_matches(cs, from, to, to_string(Kind::RightBrace)) {
        Kind::RightBrace
    } else if text_matches(cs, from, to, to_string(Kind::LeftBracket)) {
        Kind::LeftBracket
    } else if text_matches(cs, from, to, to_string(Kind::RightBracket)) {
        Kind::RightBracket
    } else {
        Kind::Unknown
    };
    proof {
        if lexeme_of(r) == t {
            let c = choose|c: Kind| lexeme_of(c) == t;
            lemma_lexeme_injective(c, r);
        } else {
            assert forall|k: Kind| lexeme_of(k) != t by {}
        }
    }
    r
}

/// The kind whose canonical text is `s`, or `Unknown` when there is none.
pub fn to_kind(s: &str) -> (r: Kind)
    ensures
        r == kind_of(s@),
{
    let cs = chars_of(s);
    let r = lookup_kind(cs.as_slice(), 0, cs.len());
    assert(cs@.subrange(0, cs@.len() as int) =~= s@);
    r
}

} // verus!
