use crate::error::{ErrorType, FilePosition, SwindleError};
use vstd::prelude::*;
use vstd::string::StrSliceExecFns;
use vstd::string::StringExecFns;

verus! {

/// One lexical token of the surface language.
#[derive(Debug)]
pub enum Token {
    IntLit(i64),
    StringLit(String),
    Variable(String),
    LParen,
    RParen,
    LBrace,
    RBrace,
    Quotient,
    Product,
    Remainder,
    Difference,
    Sum,
    Leq,
    Lt,
    Eq,
    Neq,
    Gt,
    Geq,
    Assign,
    Semicolon,
    IntType,
    StringType,
    BoolType,
    Unit,
    True,
    False,
    Write,
    Writeln,
    And,
    Or,
    Not,
    Break,
    Continue,
    If,
    Elif,
    Else,
    While,
}

/// A token together with the source position of its first character.
#[derive(Debug)]
pub struct PosnToken {
    pub token: Token,
    pub file_posn: FilePosition,
}

impl PosnToken {
    pub fn new(token: Token, file_posn: FilePosition) -> (r: Self)
        ensures
            r.file_posn == file_posn,
    {
        PosnToken { token, file_posn }
    }
}

fn lex_error(message: &str, file_posn: FilePosition) -> (e: SwindleError)
    ensures
        e.error_type == ErrorType::Tokenizer,
        e.file_posn == file_posn,
{
    SwindleError { message: String::from_str(message), file_posn, error_type: ErrorType::Tokenizer }
}

/// The characters `word` would consume at position `i`, when the source
/// continues with exactly that word there.
fn match_word(chars: &Vec<char>, i: usize, word: &str) -> (r: Option<usize>)
    requires
        i <= chars@.len(),
    ensures
        r matches Some(l) ==> 0 < l && i + l <= chars@.len(),
{
    let n = word.unicode_len();
    let limit = chars.len();
    if n == 0 || n > limit - i {
        return None;
    }
    let mut j: usize = 0;
    while j < n
        invariant
            j <= n,
            n == word@.len(),
            0 < n,
            i + n <= limit,
            limit == chars@.len(),
        decreases n - j,
    {
        if chars[i + j] != word.get_char(j) {
            return None;
        }
        j = j + 1;
    }
    Some(n)
}

fn is_space(c: char) -> (r: bool) {
    c == ' ' || c == '\n' || c == '\t' || c == '\r'
}

fn is_digit(c: char) -> (r: bool)
    ensures
        r == ('0' <= c <= '9'),
{
    let u = c as u32;
    48 <= u && u <= 57
}

fn is_alpha(c: char) -> (r: bool) {
    let u = c as u32;
    (65 <= u && u <= 90) || (97 <= u && u <= 122)
}

/// Turns source text into a token stream, each token carrying its
/// position. Fails on an oversized integer literal, an unterminated or
/// badly escaped string literal, and any character that starts no token.
pub fn tokenize(source: &str) -> (r: Result<Vec<PosnToken>, SwindleError>)
    ensures
        r matches Err(e) ==> e.error_type == ErrorType::Tokenizer,
{
    let n = source.unicode_len();
    let mut chars: Vec<char> = Vec::new();
    let mut k: usize = 0;
    while k < n
        invariant
            k <= n,
            n == source@.len(),
            chars@.len() == k,
        decreases n - k,
    {
        chars.push(source.get_char(k));
        k = k + 1;
    }
    let mut tokens: Vec<PosnToken> = Vec::new();
    let mut i: usize = 0;
    let mut line: usize = 0;
    let mut col: usize = 0;
    while i < chars.len()
        invariant
            i <= chars@.len(),
            col <= i,
            line <= i,
        decreases chars@.len() - i,
    {
        let c = chars[i];
        if is_space(c) {
            if c == '\n' {
                line = line + 1;
                col = 0;
            } else {
                col = col + 1;
            }
            i = i + 1;
            continue ;
        }
        let posn = FilePosition { line, column: col };
        // keywords first, in a fixed order: `writeln` before `write`, so
        // the longer spelling wins
        let mut keyword: Option<(Token, usize)> = None;
        if let Some(l) = match_word(&chars, i, "int") {
            keyword = Some((Token::IntType, l));
        } else if let Some(l) = match_word(&chars, i, "string") {
            keyword = Some((Token::StringType, l));
        } else if let Some(l) = match_word(&chars, i, "bool") {
            keyword = Some((Token::BoolType, l));
        } else if let Some(l) = match_word(&chars, i, "unit") {
            keyword = Some((Token::Unit, l));
        } else if let Some(l) = match_word(&chars, i, "true") {
            keyword = Some((Token::True, l));
        } else if let Some(l) = match_word(&chars, i, "false") {
            keyword = Some((Token::False, l));
        } else if let Some(l) = match_word(&chars, i, "writeln") {
            keyword = Some((Token::Writeln, l));
        } else if let Some(l) = match_word(&chars, i, "write") {
            keyword = Some((Token::Write, l));
        } else if let Some(l) = match_word(&chars, i, "and") {
            keyword = Some((Token::And, l));
        } else if let Some(l) = match_word(&chars, i, "or") {
            keyword = Some((Token::Or, l));
        } else if let Some(l) = match_word(&chars, i, "not") {
            keyword = Some((Token::Not, l));
        } else if let Some(l) = match_word(&chars, i, "break") {
            keyword = Some((Token::Break, l));
        } else if let Some(l) = match_word(&chars, i, "continue") {
            keyword = Some((Token::Continue, l));
        } else if let Some(l) = match_word(&chars, i, "==") {
            keyword = Some((Token::Eq, l));
        } else if let Some(l) = match_word(&chars, i, "!=") {
            keyword = Some((Token::Neq, l));
        } else if let Some(l) = match_word(&chars, i, ">=") {
            keyword = Some((Token::Geq, l));
        } else if let Some(l) = match_word(&chars, i, "<=") {
            keyword = Some((Token::Leq, l));
        } else if let Some(l) = match_word(&chars, i, "if") {
            keyword = Some((Token::If, l));
        } else if let Some(l) = match_word(&chars, i, "elif") {
            keyword = Some((Token::Elif, l));
        } else if let Some(l) = match_word(&chars, i, "else") {
            keyword = Some((Token::Else, l));
        } else if let Some(l) = match_word(&chars, i, "while") {
            keyword = Some((Token::While, l));
        }
        if let Some((tok, l)) = keyword {
            tokens.push(PosnToken::new(tok, posn));
            i = i + l;
            col = col + l;
            continue ;
        }
        if c == '/' {
            tokens.push(PosnToken::new(Token::Quotient, posn));
        } else if c == '*' {
            tokens.push(PosnToken::new(Token::Product, posn));
        } else if c == '%' {
            tokens.push(PosnToken::new(Token::Remainder, posn));
        } else if c == '-' {
            tokens.push(PosnToken::new(Token::Difference, posn));
        } else if c == '+' {
            tokens.push(PosnToken::new(Token::Sum, posn));
        } else if c == '<' {
            tokens.push(PosnToken::new(Token::Lt, posn));
        } else if c == '>' {
            tokens.push(PosnToken::new(Token::Gt, posn));
        } else if c == '=' {
            tokens.push(PosnToken::new(Token::Assign, posn));
        } else if c == ';' {
            tokens.push(PosnToken::new(Token::Semicolon, posn));
        } else if c == '(' {
            tokens.push(PosnToken::new(Token::LParen, posn));
        } else if c == ')' {
            tokens.push(PosnToken::new(Token::RParen, posn));
        } else if c == '{' {
            tokens.push(PosnToken::new(Token::LBrace, posn));
        } else if c == '}' {
            tokens.push(PosnToken::new(Token::RBrace, posn));
        } else if is_digit(c) {
            let mut num: u64 = ((c as u32) - 48) as u64;
            let mut j = i + 1;
            while j < chars.len()
                invariant
                    i < j <= chars@.len(),
                    num <= 9223372036854775807u64,
                decreases chars@.len() - j,
            {
                let c2 = chars[j];
                if !is_digit(c2) {
                    break ;
                }
                let d = ((c2 as u32) - 48) as u64;
                let stepped = match num.checked_mul(10) {
                    Some(m) => m.checked_add(d),
                    None => None,
                };
                match stepped {
                    Some(s) => {
                        if s > 9223372036854775807u64 {
                            return Err(lex_error("integer literal is too large", posn));
                        }
                        num = s;
                    },
                    None => {
                        return Err(lex_error("integer literal is too large", posn));
                    },
                }
                j = j + 1;
            }
            tokens.push(PosnToken::new(Token::IntLit(num as i64), posn));
            col = col + (j - i);
            i = j;
            continue ;
        } else if c == '"' {
            let mut s = String::new();
            let mut j = i + 1;
            let mut line2 = line;
            let mut col2 = col + 1;
            let mut closed = false;
            while j < chars.len()
                invariant
                    i < j <= chars@.len(),
                    col2 <= j,
                    line2 <= j,
                decreases chars@.len() - j,
            {
                let c2 = chars[j];
                if c2 == '"' {
                    j = j + 1;
                    col2 = col2 + 1;
                    closed = true;
                    break ;
                } else if c2 == '\\' {
                    if j + 1 >= chars.len() {
                        break ;
                    }
                    let e = chars[j + 1];
                    if e == '"' {
                        s.push('"');
                    } else if e == '\\' {
                        s.push('\\');
                    } else if e == 't' {
                        s.push('\t');
                    } else if e == 'n' {
                        s.push('\n');
                    } else {
                        break ;
                    }
                    j = j + 2;
                    col2 = col2 + 2;
                } else {
                    s.push(c2);
                    if c2 == '\n' {
                        line2 = line2 + 1;
                        col2 = 0;
                    } else {
                        col2 = col2 + 1;
                    }
                    j = j + 1;
                }
            }
            if !closed {
                return Err(lex_error("unexpected EOF while parsing string literal", posn));
            }
            tokens.push(PosnToken::new(Token::StringLit(s), posn));
            i = j;
            line = line2;
            col = col2;
            continue ;
        } else if is_alpha(c) {
            let mut s = String::new();
            s.push(c);
            let mut j = i + 1;
            while j < chars.len()
                invariant
                    i < j <= chars@.len(),
                decreases chars@.len() - j,
            {
                let c2 = chars[j];
                if is_alpha(c2) || is_digit(c2) {
                    s.push(c2);
                    j = j + 1;
                } else {
                    break ;
                }
            }
            tokens.push(PosnToken::new(Token::Variable(s), posn));
            col = col + (j - i);
            i = j;
            continue ;
        } else {
            return Err(lex_error("unexpected character", posn));
        }
        i = i + 1;
        col = col + 1;
    }
    Ok(tokens)
}

} // verus!
