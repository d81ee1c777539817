use vstd::prelude::*;

use crate::text::{chars_of, string_of};
use crate::token::{kind_of, lemma_kind_of_found, lexeme_of, lookup_kind, Kind, Token};

verus! {

/// The class of a character, which decides how a token starting with it is scanned.
#[derive(Debug, PartialEq, Eq, Structural, Clone, Copy)]
pub enum CharType {
    Unknown,
    WhiteSpace,
    NumberLiteral,
    StringLiteral,
    IdentifierAndKeyword,
    OperatorAndPunctuator,
}

/// Why a scan failed; offsets count characters from the start of the input.
#[derive(Debug, PartialEq, Eq, Structural, Clone, Copy)]
pub enum ScanError {
    /// `character` at `offset` belongs to no class, or begins no operator or punctuator.
    InvalidCharacter { character: char, offset: usize },
    /// The quote at `start_offset` has no closing quote before the end of the input.
    UnterminatedString { start_offset: usize },
}

/// The class of `c`. The quote only opens strings, although it lies among the symbols.
pub open spec fn char_class(c: char) -> CharType {
    if c == ' ' || c == '\t' || c == '\n' || c == '\r' {
        CharType::WhiteSpace
    } else if '0' <= c && c <= '9' {
        CharType::NumberLiteral
    } else if c == '\'' {
        CharType::StringLiteral
    } else if ('a' <= c && c <= 'z') || ('A' <= c && c <= 'Z') || c == '_' {
        CharType::IdentifierAndKeyword
    } else if ('!' <= c && c <= '/') || (':' <= c && c <= '@') || ('[' <= c && c <= '`') || (
    '{' <= c && c <= '~') {
        CharType::OperatorAndPunctuator
    } else {
        CharType::Unknown
    }
}

/// Whether `c` may stand inside a token of class `t` after its first character:
/// digits in a number; letters, digits and `_` in a word; anything but the quote in a string.
pub open spec fn continues(c: char, t: CharType) -> bool {
    match t {
        CharType::NumberLiteral => char_class(c) == CharType::NumberLiteral,
        CharType::IdentifierAndKeyword => char_class(c) == CharType::IdentifierAndKeyword
            || char_class(c) == CharType::NumberLiteral,
        CharType::StringLiteral => c != '\'',
        _ => false,
    }
}

/// The end of the longest run of characters from `i` on that continue a token of class `t`.
pub open spec fn run_end(s: Seq<char>, i: int, t: CharType) -> int
    decreases s.len() - i,
{
    if 0 <= i < s.len() && continues(s[i], t) {
        run_end(s, i + 1, t)
    } else {
        i
    }
}

/// How many characters, two or one, the operator or punctuator at `i` takes
/// by longest match; zero when neither is in the symbol table.
pub open spec fn operator_len(s: Seq<char>, i: int) -> int {
    if i + 2 <= s.len() && kind_of(s.subrange(i, i + 2)) != Kind::Unknown {
        2
    } else if i + 1 <= s.len() && kind_of(s.subrange(i, i + 1)) != Kind::Unknown {
        1
    } else {
        0
    }
}

/// The kind of a word: its keyword, or `Identifier`.
pub open spec fn word_kind(w: Seq<char>) -> Kind {
    if kind_of(w) == Kind::Unknown {
        Kind::Identifier
    } else {
        kind_of(w)
    }
}

/// One step of the scanner at `i < s.len()`: the token that starts there, if
/// any (whitespace gives none), and the position after it; or the error.
pub open spec fn token_at(s: Seq<char>, i: int) -> Result<
    (Option<(Kind, Seq<char>)>, int),
    ScanError,
> {
    let c = s[i];
    match char_class(c) {
        CharType::WhiteSpace => Ok((None, i + 1)),
        CharType::NumberLiteral => {
            let e = run_end(s, i, CharType::NumberLiteral);
            Ok((Some((Kind::NumberLiteral, s.subrange(i, e))), e))
        },
        CharType::IdentifierAndKeyword => {
            let e = run_end(s, i, CharType::IdentifierAndKeyword);
            Ok((Some((word_kind(s.subrange(i, e)), s.subrange(i, e))), e))
        },
        CharType::StringLiteral => {
            let e = run_end(s, i + 1, CharType::StringLiteral);
            if e < s.len() {
                Ok((Some((Kind::StringLiteral, s.subrange(i + 1, e))), e + 1))
            } else {
                Err(ScanError::UnterminatedString { start_offset: i as usize })
            }
        },
        CharType::OperatorAndPunctuator => {
            let n = operator_len(s, i);
            if n > 0 {
                Ok((Some((kind_of(s.subrange(i, i + n)), s.subrange(i, i + n))), i + n))
            } else {
                Err(ScanError::InvalidCharacter { character: c, offset: i as usize })
            }
        },
        CharType::Unknown => Err(ScanError::InvalidCharacter { character: c, offset: i as usize }),
    }
}

/// `r` with the tokens `p` in front, or the error of `r`.
pub open spec fn prepend<T>(p: Seq<T>, r: Result<Seq<T>, ScanError>) -> Result<Seq<T>, ScanError> {
    match r {
        Ok(ts) => Ok(p + ts),
        Err(e) => Err(e),
    }
}

/// The tokens of `s` from position `i` on, ended by `EndOfToken`, or the
/// first error met.
pub open spec fn scan_from(s: Seq<char>, i: int) -> Result<Seq<(Kind, Seq<char>)>, ScanError>
    decreases s.len() - i,
    via scan_from_decreases
{
    if i < 0 || i >= s.len() {
        Ok(seq![(Kind::EndOfToken, Seq::empty())])
    } else {
        match token_at(s, i) {
            Err(e) => Err(e),
            Ok((None, j)) => scan_from(s, j),
            Ok((Some(t), j)) => prepend(seq![t], scan_from(s, j)),
        }
    }
}

#[via_fn]
proof fn scan_from_decreases(s: Seq<char>, i: int) {
    if 0 <= i < s.len() {
        lemma_token_at_advances(s, i);
    }
}

/// A run never ends before it starts nor after the input.
pub proof fn lemma_run_end(s: Seq<char>, i: int, t: CharType)
    requires
        0 <= i <= s.len(),
    ensures
        i <= run_end(s, i, t) <= s.len(),
        forall|j: int| i <= j < run_end(s, i, t) ==> continues(#[trigger] s[j], t),
        run_end(s, i, t) < s.len() ==> !continues(s[run_end(s, i, t)], t),
    decreases s.len() - i,
{
    if i < s.len() && continues(s[i], t) {
        lemma_run_end(s, i + 1, t);
    }
}

/// Each step that succeeds moves forward and stays within the input.
pub proof fn lemma_token_at_advances(s: Seq<char>, i: int)
    requires
        0 <= i < s.len(),
    ensures
        token_at(s, i) matches Ok((_, j)) ==> i < j <= s.len(),
{
    lemma_run_end(s, i, CharType::NumberLiteral);
    lemma_run_end(s, i, CharType::IdentifierAndKeyword);
    lemma_run_end(s, i + 1, CharType::StringLiteral);
}

/// The class of `c`.
fn get_char_type(c: char) -> (r: CharType)
    ensures
        r == char_class(c),
{
    if c == ' ' || c == '\t' || c == '\n' || c == '\r' {
        CharType::WhiteSpace
    } else if '0' <= c && c <= '9' {
        CharType::NumberLiteral
    } else if c == '\'' {
        CharType::StringLiteral
    } else if ('a' <= c && c <= 'z') || ('A' <= c && c <= 'Z') || c == '_' {
        CharType::IdentifierAndKeyword
    } else if ('!' <= c && c <= '/') || (':' <= c && c <= '@') || ('[' <= c && c <= '`') || (
    '{' <= c && c <= '~') {
        CharType::OperatorAndPunctuator
    } else {
        CharType::Unknown
    }
}

/// Whether `c` is of class `char_type`.
fn is_char_type(c: char, char_type: CharType) -> (r: bool)
    ensures
        r == (char_class(c) == char_type),
{
    get_char_type(c) == char_type
}

/// Whether `c` may stand inside a token of class `t` after its first character.
fn continues_token(c: char, t: CharType) -> (r: bool)
    ensures
        r == continues(c, t),
{
    match t {
        CharType::NumberLiteral => is_char_type(c, CharType::NumberLiteral),
        CharType::IdentifierAndKeyword => is_char_type(c, CharType::IdentifierAndKeyword)
            || is_char_type(c, CharType::NumberLiteral),
        CharType::StringLiteral => c != '\'',
        _ => false,
    }
}

/// The end of the run from `pos` of characters that continue a token of class `t`.
fn find_run_end(cs: &Vec<char>, pos: usize, t: CharType) -> (r: usize)
    requires
        pos <= cs@.len(),
    ensures
        r == run_end(cs@, pos as int, t),
{
    let mut i = pos;
    while i < cs.len() && continues_token(cs[i], t)
        invariant
            pos <= i <= cs@.len(),
            run_end(cs@, i as int, t) == run_end(cs@, pos as int, t),
        decreases cs@.len() - i,
    {
        i += 1;
    }
    i
}

/// Scans the number that starts at `pos`.
fn scan_number_literal(cs: &Vec<char>, pos: usize) -> (r: (Token, usize))
    requires
        pos < cs@.len(),
        char_class(cs@[pos as int]) == CharType::NumberLiteral,
    ensures
        token_at(cs@, pos as int) == Ok::<_, ScanError>((Some(r.0@), r.1 as int)),
{
    let end = find_run_end(cs, pos, CharType::NumberLiteral);
    proof {
        lemma_run_end(cs@, pos as int, CharType::NumberLiteral);
    }
    (Token::new(Kind::NumberLiteral, string_of(cs.as_slice(), pos, end)), end)
}

/// Scans the string literal whose opening quote is at `pos`.
fn scan_string_literal(cs: &Vec<char>, pos: usize) -> (r: Result<(Token, usize), ScanError>)
    requires
        pos < cs@.len(),
        char_class(cs@[pos as int]) == CharType::StringLiteral,
    ensures
        token_at(cs@, pos as int) == match r {
            Ok((t, j)) => Ok((Some(t@), j as int)),
            Err(e) => Err(e),
        },
{
    let n = cs.len();
    let end = find_run_end(cs, pos + 1, CharType::StringLiteral);
    proof {
        lemma_run_end(cs@, pos + 1, CharType::StringLiteral);
    }
    if end < n {
        Ok((Token::new(Kind::StringLiteral, string_of(cs.as_slice(), pos + 1, end)), end + 1))
    } else {
        Err(ScanError::UnterminatedString { start_offset: pos })
    }
}

/// Scans the identifier or keyword that starts at `pos`.
fn scan_identifier_and_keyword(cs: &Vec<char>, pos: usize) -> (r: (Token, usize))
    requires
        pos < cs@.len(),
        char_class(cs@[pos as int]) == CharType::IdentifierAndKeyword,
    ensures
        token_at(cs@, pos as int) == Ok::<_, ScanError>((Some(r.0@), r.1 as int)),
{
    let end = find_run_end(cs, pos, CharType::IdentifierAndKeyword);
    proof {
        lemma_run_end(cs@, pos as int, CharType::IdentifierAndKeyword);
    }
    let found = lookup_kind(cs.as_slice(), pos, end);
    let kind = if found == Kind::Unknown {
        Kind::Identifier
    } else {
        found
    };
    (Token::new(kind, string_of(cs.as_slice(), pos, end)), end)
}

/// Scans the operator or punctuator that starts at `pos`, preferring two
/// characters to one.
fn scan_operator_and_punctuator(cs: &Vec<char>, pos: usize) -> (r: Result<(Token, usize), ScanError>)
    requires
        pos < cs@.len(),
        char_class(cs@[pos as int]) == CharType::OperatorAndPunctuator,
    ensures
        token_at(cs@, pos as int) == match r {
            Ok((t, j)) => Ok((Some(t@), j as int)),
            Err(e) => Err(e),
        },
{
    if cs.len() - pos >= 2 {
        let kind = lookup_kind(cs.as_slice(), pos, pos + 2);
        if kind != Kind::Unknown {
            return Ok((Token::new(kind, string_of(cs.as_slice(), pos, pos + 2)), pos + 2));
        }
    }
    let kind = lookup_kind(cs.as_slice(), pos, pos + 1);
    if kind != Kind::Unknown {
        Ok((Token::new(kind, string_of(cs.as_slice(), pos, pos + 1)), pos + 1))
    } else {
        Err(ScanError::InvalidCharacter { character: cs[pos], offset: pos })
    }
}

/// The shape of every successful scan: it ends with one `EndOfToken` of empty
/// text, and no other token is `EndOfToken` or `Unknown`.
pub open spec fn well_formed(ts: Seq<(Kind, Seq<char>)>) -> bool {
    &&& ts.len() >= 1
    &&& ts.last() == (Kind::EndOfToken, Seq::<char>::empty())
    &&& forall|j: int|
        0 <= j < ts.len() - 1 ==> (#[trigger] ts[j]).0 != Kind::EndOfToken && ts[j].0 != Kind::Unknown
}

/// No step of the scanner emits a sentinel.
pub proof fn lemma_token_at_kind(s: Seq<char>, i: int)
    requires
        0 <= i < s.len(),
    ensures
        token_at(s, i) matches Ok((Some(t), _)) ==> t.0 != Kind::EndOfToken && t.0 != Kind::Unknown,
{
    reveal_strlit("#EndOfToken");
    assert(lexeme_of(Kind::EndOfToken).len() == 11 && lexeme_of(Kind::EndOfToken)[0] == '#');
    let e = run_end(s, i, CharType::IdentifierAndKeyword);
    lemma_run_end(s, i, CharType::IdentifierAndKeyword);
    lemma_run_end(s, i + 1, CharType::IdentifierAndKeyword);
    let w = s.subrange(i, e);
    if char_class(s[i]) == CharType::IdentifierAndKeyword && kind_of(w) != Kind::Unknown {
        lemma_kind_of_found(w);
        assert(w[0] == s[i]);
    }
    let n = operator_len(s, i);
    if char_class(s[i]) == CharType::OperatorAndPunctuator && n > 0 {
        lemma_kind_of_found(s.subrange(i, i + n));
    }
}

/// Every successful scan from any position is well formed.
pub proof fn lemma_scan_from_well_formed(s: Seq<char>, i: int)
    ensures
        scan_from(s, i) matches Ok(ts) ==> well_formed(ts),
    decreases s.len() - i,
{
    if 0 <= i < s.len() {
        lemma_token_at_advances(s, i);
        lemma_token_at_kind(s, i);
        if let Ok((_, j)) = token_at(s, i) {
            lemma_scan_from_well_formed(s, j);
            if let (Ok((Some(t), _)), Ok(rest)) = (token_at(s, i), scan_from(s, j)) {
                let ts = seq![t] + rest;
                assert forall|k: int| 0 <= k < ts.len() - 1 implies (#[trigger] ts[k]).0
                    != Kind::EndOfToken && ts[k].0 != Kind::Unknown by {
                    if k > 0 {
                        assert(ts[k] == rest[k - 1]);
                    }
                }
            }
        }
    }
}

/// Input made only of whitespace gives just the `EndOfToken` sentinel.
pub proof fn lemma_whitespace_only(s: Seq<char>)
    requires
        forall|j: int| 0 <= j < s.len() ==> char_class(#[trigger] s[j]) == CharType::WhiteSpace,
    ensures
        scan_from(s, 0) == Ok::<_, ScanError>(seq![(Kind::EndOfToken, Seq::<char>::empty())]),
{
    lemma_whitespace_suffix(s, 0);
}

proof fn lemma_whitespace_suffix(s: Seq<char>, i: int)
    requires
        0 <= i,
        forall|j: int| 0 <= j < s.len() ==> char_class(#[trigger] s[j]) == CharType::WhiteSpace,
    ensures
        scan_from(s, i) == Ok::<_, ScanError>(seq![(Kind::EndOfToken, Seq::<char>::empty())]),
    decreases s.len() - i,
{
    if i < s.len() {
        lemma_whitespace_suffix(s, i + 1);
    }
}

/// Input made only of digits, at least one, gives one number token holding
/// the whole input, then `EndOfToken`.
pub proof fn lemma_digits_only(s: Seq<char>)
    requires
        s.len() > 0,
        forall|j: int| 0 <= j < s.len() ==> char_class(#[trigger] s[j]) == CharType::NumberLiteral,
    ensures
        scan_from(s, 0) == Ok::<_, ScanError>(
            seq![(Kind::NumberLiteral, s), (Kind::EndOfToken, Seq::<char>::empty())],
        ),
{
    lemma_digit_run(s, 0);
    assert(s.subrange(0, s.len() as int) =~= s);
    assert(scan_from(s, s.len() as int) == Ok::<_, ScanError>(
        seq![(Kind::EndOfToken, Seq::<char>::empty())],
    ));
    assert(seq![(Kind::NumberLiteral, s)] + seq![(Kind::EndOfToken, Seq::<char>::empty())]
        =~= seq![(Kind::NumberLiteral, s), (Kind::EndOfToken, Seq::<char>::empty())]);
}

proof fn lemma_digit_run(s: Seq<char>, i: int)
    requires
        0 <= i <= s.len(),
        forall|j: int| 0 <= j < s.len() ==> char_class(#[trigger] s[j]) == CharType::NumberLiteral,
    ensures
        run_end(s, i, CharType::NumberLiteral) == s.len(),
    decreases s.len() - i,
{
    if i < s.len() {
        lemma_digit_run(s, i + 1);
    }
}

/// The tokens as pairs of kind and text.
pub open spec fn tokens_view(ts: Seq<Token>) -> Seq<(Kind, Seq<char>)> {
    ts.map_values(|t: Token| t@)
}

/// What a scan returns, with its tokens as pairs of kind and text.
pub open spec fn result_view(r: Result<Vec<Token>, ScanError>) -> Result<
    Seq<(Kind, Seq<char>)>,
    ScanError,
> {
    match r {
        Ok(ts) => Ok(tokens_view(ts@)),
        Err(e) => Err(e),
    }
}

/// Splits `source_code` into tokens ended by one `EndOfToken`, or reports the
/// first invalid character or unterminated string.
pub fn scan(source_code: &str) -> (r: Result<Vec<Token>, ScanError>)
    ensures
        result_view(r) == scan_from(source_code@, 0),
        r matches Ok(ts) ==> well_formed(tokens_view(ts@)),
{
    proof {
        lemma_scan_from_well_formed(source_code@, 0);
    }
    let cs = chars_of(source_code);
    let n = cs.len();
    let mut tokens: Vec<Token> = Vec::new();
    let mut pos: usize = 0;
    while pos < n
        invariant
            n == cs@.len(),
            cs@ == source_code@,
            pos <= n,
            scan_from(cs@, 0) == prepend(tokens_view(tokens@), scan_from(cs@, pos as int)),
        decreases n - pos,
    {
        let ghost before = tokens@;
        let step = match get_char_type(cs[pos]) {
            CharType::WhiteSpace => Ok((None, pos + 1)),
            CharType::NumberLiteral => {
                let (t, next) = scan_number_literal(&cs, pos);
                Ok((Some(t), next))
            },
            CharType::StringLiteral => match scan_string_literal(&cs, pos) {
                Ok((t, next)) => Ok((Some(t), next)),
                Err(e) => Err(e),
            },
            CharType::IdentifierAndKeyword => {
                let (t, next) = scan_identifier_and_keyword(&cs, pos);
                Ok((Some(t), next))
            },
            CharType::OperatorAndPunctuator => match scan_operator_and_punctuator(&cs, pos) {
                Ok((t, next)) => Ok((Some(t), next)),
                Err(e) => Err(e),
            },
            CharType::Unknown => Err(ScanError::InvalidCharacter { character: cs[pos], offset: pos }),
        };
        proof {
            lemma_token_at_advances(cs@, pos as int);
        }
        match step {
            Ok((Some(t), next)) => {
                tokens.push(t);
                proof {
                    assert(tokens_view(tokens@) =~= tokens_view(before) + seq![t@]);
                    assert(tokens_view(before) + seq![t@] + scan_from(cs@, next as int)->Ok_0
                        =~= tokens_view(before) + (seq![t@] + scan_from(cs@, next as int)->Ok_0));
                }
                pos = next;
            },
            Ok((None, next)) => {
                pos = next;
            },
            Err(e) => {
                return Err(e);
            },
        }
    }
    let ghost before = tokens@;
    tokens.push(Token::new(Kind::EndOfToken, String::new()));
    assert(tokens_view(tokens@) =~= tokens_view(before) + seq![(Kind::EndOfToken, Seq::<char>::empty())]);
    Ok(tokens)
}

} // verus!
