use crate::ast::{
    AddExp, AddOp, AndExp, Body, CompExp, CompOp, Elif, Expression, IfExp, MulExp, MulOp, OrExp,
    Parsed, Primary, Program, Statement, TaggedStatement, Type, Unary, WhileExp,
};
use crate::error::{ErrorType, FilePosition, SwindleError};
use crate::tokenizer::{PosnToken, Token};
use vstd::prelude::*;
use vstd::string::StringExecFns;

verus! {

fn parse_error(message: &str, file_posn: FilePosition) -> (e: SwindleError)
    ensures
        e.error_type == ErrorType::Parser,
        e.file_posn == file_posn,
{
    SwindleError { message: String::from_str(message), file_posn, error_type: ErrorType::Parser }
}

fn eof_error() -> (e: SwindleError)
    ensures
        e.error_type == ErrorType::Parser,
{
    parse_error("unexpected eof", FilePosition::new())
}

/// Parses a whole token stream into an untyped program: statements until
/// the stream ends, with the position of each statement's first token;
/// leftover tokens that start no statement are an error.
pub fn parse_program(tokens: &Vec<PosnToken>) -> (r: Result<Program<Parsed>, SwindleError>)
    ensures
        r matches Err(e) ==> e.error_type == ErrorType::Parser,
{
    let (statements, i) = parse_statements(tokens, 0);
    if i == tokens.len() {
        Ok(Program { statements })
    } else {
        match parse_statement(tokens, i) {
            Err(e) => Err(e),
            Ok(_) => Err(parse_error("incomplete parse", tokens[i].file_posn)),
        }
    }
}

/// Statements for as long as one parses; never fails, and hands back the
/// position where the first non-statement begins.
fn parse_statements(tokens: &Vec<PosnToken>, i: usize) -> (r: (
    Vec<TaggedStatement<Parsed>>,
    usize,
))
    requires
        i <= tokens@.len(),
    ensures
        i <= r.1 <= tokens@.len(),
    decreases tokens@.len() - i, 11int,
{
    match parse_statement(tokens, i) {
        Ok((statement, j)) => {
            let posn = tokens[i].file_posn;
            let (mut rest, k) = parse_statements(tokens, j);
            let mut out: Vec<TaggedStatement<Parsed>> = Vec::new();
            out.push(TaggedStatement::new(posn, statement));
            out.append(&mut rest);
            (out, k)
        },
        Err(_) => (Vec::new(), i),
    }
}

/// One statement: a declaration, a write/writeln, break, continue or a
/// bare expression, always closed by a semicolon.
fn parse_statement(tokens: &Vec<PosnToken>, i: usize) -> (r: Result<
    (Statement<Parsed>, usize),
    SwindleError,
>)
    requires
        i <= tokens@.len(),
    ensures
        r matches Ok(p) ==> i < p.1 <= tokens@.len(),
        r matches Err(e) ==> e.error_type == ErrorType::Parser,
    decreases tokens@.len() - i, 10int,
{
    if i >= tokens.len() {
        return Err(eof_error());
    }
    let is_declaration = match &tokens[i].token {
        Token::IntType | Token::StringType | Token::BoolType | Token::Unit => {
            if i + 1 < tokens.len() {
                match &tokens[i + 1].token {
                    Token::Variable(_) => true,
                    _ => false,
                }
            } else {
                false
            }
        },
        _ => false,
    };
    if is_declaration {
        let (typ, j) = parse_type(tokens, i)?;
        if j >= tokens.len() {
            return Err(eof_error());
        }
        let varname = match &tokens[j].token {
            Token::Variable(v) => v.clone(),
            _ => {
                return Err(parse_error("bad token", tokens[j].file_posn));
            },
        };
        let j = j + 1;
        if j >= tokens.len() {
            return Err(eof_error());
        }
        match &tokens[j].token {
            Token::Assign => {},
            _ => {
                return Err(parse_error("bad token", tokens[j].file_posn));
            },
        }
        let (e1, j) = parse_expression(tokens, j + 1)?;
        if j >= tokens.len() {
            return Err(eof_error());
        }
        return match &tokens[j].token {
            Token::Semicolon => Ok((Statement::Declare(typ, varname, e1), j + 1)),
            _ => Err(parse_error("expected a semicolon", tokens[j].file_posn)),
        };
    }
    let (statement, j) = match &tokens[i].token {
        Token::Write => {
            let (e1, j) = parse_expression(tokens, i + 1)?;
            (Statement::Write((), false, e1), j)
        },
        Token::Writeln => {
            let (e1, j) = parse_expression(tokens, i + 1)?;
            (Statement::Write((), true, e1), j)
        },
        Token::Break => (Statement::Break, i + 1),
        Token::Continue => (Statement::Continue, i + 1),
        _ => {
            let (e1, j) = parse_expression(tokens, i)?;
            (Statement::Expression(e1), j)
        },
    };
    if j >= tokens.len() {
        return Err(eof_error());
    }
    match &tokens[j].token {
        Token::Semicolon => Ok((statement, j + 1)),
        _ => Err(parse_error("expected a semicolon", tokens[j].file_posn)),
    }
}

fn parse_type(tokens: &Vec<PosnToken>, i: usize) -> (r: Result<(Type, usize), SwindleError>)
    requires
        i <= tokens@.len(),
    ensures
        r matches Ok(p) ==> i < p.1 <= tokens@.len(),
        r matches Err(e) ==> e.error_type == ErrorType::Parser,
{
    if i >= tokens.len() {
        return Err(eof_error());
    }
    match &tokens[i].token {
        Token::IntType => Ok((Type::Int, i + 1)),
        Token::StringType => Ok((Type::String, i + 1)),
        Token::BoolType => Ok((Type::Bool, i + 1)),
        Token::Unit => Ok((Type::Unit, i + 1)),
        _ => Err(parse_error("bad token", tokens[i].file_posn)),
    }
}

/// An expression: an assignment when a variable is followed by `=`, else
/// the precedence chain.
fn parse_expression(tokens: &Vec<PosnToken>, i: usize) -> (r: Result<
    (Box<Expression<Parsed>>, usize),
    SwindleError,
>)
    requires
        i <= tokens@.len(),
    ensures
        r matches Ok(p) ==> i < p.1 <= tokens@.len(),
        r matches Err(e) ==> e.error_type == ErrorType::Parser,
    decreases tokens@.len() - i, 9int,
{
    if i >= tokens.len() {
        return Err(eof_error());
    }
    if i + 1 < tokens.len() {
        let is_assign = match (&tokens[i].token, &tokens[i + 1].token) {
            (Token::Variable(_), Token::Assign) => true,
            _ => false,
        };
        if is_assign {
            let varname = match &tokens[i].token {
                Token::Variable(v) => v.clone(),
                _ => {
                    return Err(parse_error("bad token", tokens[i].file_posn));
                },
            };
            let (e1, j) = parse_expression(tokens, i + 2)?;
            return Ok((Box::new(Expression::Assign((), varname, e1)), j));
        }
    }
    let (o, j) = parse_orexp(tokens, i)?;
    Ok((Box::new(Expression::OrExp(o)), j))
}

fn parse_orexp(tokens: &Vec<PosnToken>, i: usize) -> (r: Result<
    (Box<OrExp<Parsed>>, usize),
    SwindleError,
>)
    requires
        i <= tokens@.len(),
    ensures
        r matches Ok(p) ==> i < p.1 <= tokens@.len(),
        r matches Err(e) ==> e.error_type == ErrorType::Parser,
    decreases tokens@.len() - i, 8int,
{
    let (a, j) = parse_andexp(tokens, i)?;
    if j < tokens.len() {
        let more = match &tokens[j].token {
            Token::Or => true,
            _ => false,
        };
        if more {
            let (o, k) = parse_orexp(tokens, j + 1)?;
            return Ok((Box::new(OrExp::Or(a, o)), k));
        }
    }
    Ok((Box::new(OrExp::AndExp(a)), j))
}

fn parse_andexp(tokens: &Vec<PosnToken>, i: usize) -> (r: Result<
    (Box<AndExp<Parsed>>, usize),
    SwindleError,
>)
    requires
        i <= tokens@.len(),
    ensures
        r matches Ok(p) ==> i < p.1 <= tokens@.len(),
        r matches Err(e) ==> e.error_type == ErrorType::Parser,
    decreases tokens@.len() - i, 7int,
{
    let (c, j) = parse_compexp(tokens, i)?;
    if j < tokens.len() {
        let more = match &tokens[j].token {
            Token::And => true,
            _ => false,
        };
        if more {
            let (a, k) = parse_andexp(tokens, j + 1)?;
            return Ok((Box::new(AndExp::And(c, a)), k));
        }
    }
    Ok((Box::new(AndExp::CompExp(c)), j))
}

fn parse_compexp(tokens: &Vec<PosnToken>, i: usize) -> (r: Result<
    (Box<CompExp<Parsed>>, usize),
    SwindleError,
>)
    requires
        i <= tokens@.len(),
    ensures
        r matches Ok(p) ==> i < p.1 <= tokens@.len(),
        r matches Err(e) ==> e.error_type == ErrorType::Parser,
    decreases tokens@.len() - i, 6int,
{
    let (a1, j) = parse_addexp(tokens, i)?;
    if j < tokens.len() {
        let op: Option<CompOp<Parsed>> = match &tokens[j].token {
            Token::Leq => Some(CompOp::Leq),
            Token::Lt => Some(CompOp::Lt),
            Token::Eq => Some(CompOp::Eq(())),
            Token::Neq => Some(CompOp::Neq(())),
            Token::Gt => Some(CompOp::Gt),
            Token::Geq => Some(CompOp::Geq),
            _ => None,
        };
        if let Some(op) = op {
            let (a2, k) = parse_addexp(tokens, j + 1)?;
            return Ok((Box::new(CompExp::Comp(op, a1, a2)), k));
        }
    }
    Ok((Box::new(CompExp::AddExp(a1)), j))
}

fn parse_addexp(tokens: &Vec<PosnToken>, i: usize) -> (r: Result<
    (Box<AddExp<Parsed>>, usize),
    SwindleError,
>)
    requires
        i <= tokens@.len(),
    ensures
        r matches Ok(p) ==> i < p.1 <= tokens@.len(),
        r matches Err(e) ==> e.error_type == ErrorType::Parser,
    decreases tokens@.len() - i, 5int,
{
    let (m, j) = parse_mulexp(tokens, i)?;
    if j < tokens.len() {
        let op: Option<AddOp<Parsed>> = match &tokens[j].token {
            Token::Sum => Some(AddOp::Sum(())),
            Token::Difference => Some(AddOp::Difference),
            _ => None,
        };
        if let Some(op) = op {
            let (a, k) = parse_addexp(tokens, j + 1)?;
            return Ok((Box::new(AddExp::Add(op, m, a)), k));
        }
    }
    Ok((Box::new(AddExp::MulExp(m)), j))
}

fn parse_mulexp(tokens: &Vec<PosnToken>, i: usize) -> (r: Result<
    (Box<MulExp<Parsed>>, usize),
    SwindleError,
>)
    requires
        i <= tokens@.len(),
    ensures
        r matches Ok(p) ==> i < p.1 <= tokens@.len(),
        r matches Err(e) ==> e.error_type == ErrorType::Parser,
    decreases tokens@.len() - i, 4int,
{
    let (u, j) = parse_unary(tokens, i)?;
    if j < tokens.len() {
        let op: Option<MulOp> = match &tokens[j].token {
            Token::Product => Some(MulOp::Product),
            Token::Quotient => Some(MulOp::Quotient),
            Token::Remainder => Some(MulOp::Remainder),
            _ => None,
        };
        if let Some(op) = op {
            let (m, k) = parse_mulexp(tokens, j + 1)?;
            return Ok((Box::new(MulExp::Mul(op, u, m)), k));
        }
    }
    Ok((Box::new(MulExp::Unary(u)), j))
}

fn parse_unary(tokens: &Vec<PosnToken>, i: usize) -> (r: Result<
    (Box<Unary<Parsed>>, usize),
    SwindleError,
>)
    requires
        i <= tokens@.len(),
    ensures
        r matches Ok(p) ==> i < p.1 <= tokens@.len(),
        r matches Err(e) ==> e.error_type == ErrorType::Parser,
    decreases tokens@.len() - i, 3int,
{
    if i >= tokens.len() {
        return Err(eof_error());
    }
    match &tokens[i].token {
        Token::Difference => {
            let (u, j) = parse_unary(tokens, i + 1)?;
            Ok((Box::new(Unary::Negate(u)), j))
        },
        Token::Not => {
            let (u, j) = parse_unary(tokens, i + 1)?;
            Ok((Box::new(Unary::Not(u)), j))
        },
        _ => {
            let (p, j) = parse_primary(tokens, i)?;
            Ok((Box::new(Unary::Primary(p)), j))
        },
    }
}

fn parse_primary(tokens: &Vec<PosnToken>, i: usize) -> (r: Result<
    (Box<Primary<Parsed>>, usize),
    SwindleError,
>)
    requires
        i <= tokens@.len(),
    ensures
        r matches Ok(p) ==> i < p.1 <= tokens@.len(),
        r matches Err(e) ==> e.error_type == ErrorType::Parser,
    decreases tokens@.len() - i, 2int,
{
    if i >= tokens.len() {
        return Err(eof_error());
    }
    match &tokens[i].token {
        Token::IntLit(n) => Ok((Box::new(Primary::IntLit(*n)), i + 1)),
        Token::True => Ok((Box::new(Primary::BoolLit(true)), i + 1)),
        Token::False => Ok((Box::new(Primary::BoolLit(false)), i + 1)),
        Token::StringLit(s) => Ok((Box::new(Primary::StringLit(s.clone())), i + 1)),
        Token::Variable(v) => Ok((Box::new(Primary::Variable(v.clone())), i + 1)),
        Token::Unit => Ok((Box::new(Primary::Unit), i + 1)),
        Token::LParen => {
            let (e1, j) = parse_expression(tokens, i + 1)?;
            if j >= tokens.len() {
                return Err(eof_error());
            }
            match &tokens[j].token {
                Token::RParen => Ok((Box::new(Primary::Paren(e1)), j + 1)),
                _ => Err(parse_error("expected a closing parenthesis", tokens[j].file_posn)),
            }
        },
        Token::If => {
            let (ie, j) = parse_ifexp(tokens, i)?;
            Ok((Box::new(Primary::IfExp(ie)), j))
        },
        Token::While => {
            let (we, j) = parse_whileexp(tokens, i)?;
            Ok((Box::new(Primary::WhileExp(we)), j))
        },
        _ => Err(parse_error("bad token", tokens[i].file_posn)),
    }
}

/// `while <cond> { ... }`.
fn parse_whileexp(tokens: &Vec<PosnToken>, i: usize) -> (r: Result<
    (WhileExp<Parsed>, usize),
    SwindleError,
>)
    requires
        i <= tokens@.len(),
    ensures
        r matches Ok(p) ==> i < p.1 <= tokens@.len(),
        r matches Err(e) ==> e.error_type == ErrorType::Parser,
    decreases tokens@.len() - i, 1int,
{
    if i >= tokens.len() {
        return Err(eof_error());
    }
    match &tokens[i].token {
        Token::While => {},
        _ => {
            return Err(parse_error("bad token", tokens[i].file_posn));
        },
    }
    let (cond, j) = parse_expression(tokens, i + 1)?;
    let (body, k) = parse_body(tokens, j)?;
    Ok((WhileExp { tag: (), cond, body }, k))
}

/// `if <cond> { ... }`, any number of `elif` arms, and an optional
/// `else { ... }`; a missing `else` is an empty body.
fn parse_ifexp(tokens: &Vec<PosnToken>, i: usize) -> (r: Result<
    (IfExp<Parsed>, usize),
    SwindleError,
>)
    requires
        i <= tokens@.len(),
    ensures
        r matches Ok(p) ==> i < p.1 <= tokens@.len(),
        r matches Err(e) ==> e.error_type == ErrorType::Parser,
    decreases tokens@.len() - i, 1int,
{
    if i >= tokens.len() {
        return Err(eof_error());
    }
    match &tokens[i].token {
        Token::If => {},
        _ => {
            return Err(parse_error("bad token", tokens[i].file_posn));
        },
    }
    let (cond, j) = parse_expression(tokens, i + 1)?;
    let (body, k) = parse_body(tokens, j)?;
    let (elifs, m) = parse_elifs(tokens, k);
    let mut els = Body { statements: Vec::new() };
    let mut n = m;
    if m < tokens.len() {
        let has_else = match &tokens[m].token {
            Token::Else => true,
            _ => false,
        };
        if has_else {
            let (e, n2) = parse_body(tokens, m + 1)?;
            els = e;
            n = n2;
        }
    }
    Ok((IfExp { tag: (), cond, body, elifs, els }, n))
}

/// `elif` arms for as long as they parse; never fails.
fn parse_elifs(tokens: &Vec<PosnToken>, i: usize) -> (r: (Vec<Elif<Parsed>>, usize))
    requires
        i <= tokens@.len(),
    ensures
        i <= r.1 <= tokens@.len(),
    decreases tokens@.len() - i, 11int,
{
    match parse_elif(tokens, i) {
        Ok((elif, j)) => {
            let (mut rest, k) = parse_elifs(tokens, j);
            let mut out: Vec<Elif<Parsed>> = Vec::new();
            out.push(elif);
            out.append(&mut rest);
            (out, k)
        },
        Err(_) => (Vec::new(), i),
    }
}

fn parse_elif(tokens: &Vec<PosnToken>, i: usize) -> (r: Result<
    (Elif<Parsed>, usize),
    SwindleError,
>)
    requires
        i <= tokens@.len(),
    ensures
        r matches Ok(p) ==> i < p.1 <= tokens@.len(),
        r matches Err(e) ==> e.error_type == ErrorType::Parser,
    decreases tokens@.len() - i, 1int,
{
    if i >= tokens.len() {
        return Err(eof_error());
    }
    match &tokens[i].token {
        Token::Elif => {},
        _ => {
            return Err(parse_error("bad token", tokens[i].file_posn));
        },
    }
    let (cond, j) = parse_expression(tokens, i + 1)?;
    let (body, k) = parse_body(tokens, j)?;
    Ok((Elif { cond, body }, k))
}

/// `{ ... }`: statements between braces.
fn parse_body(tokens: &Vec<PosnToken>, i: usize) -> (r: Result<
    (Body<Parsed>, usize),
    SwindleError,
>)
    requires
        i <= tokens@.len(),
    ensures
        r matches Ok(p) ==> i < p.1 <= tokens@.len(),
        r matches Err(e) ==> e.error_type == ErrorType::Parser,
    decreases tokens@.len() - i, 0int,
{
    if i >= tokens.len() {
        return Err(eof_error());
    }
    match &tokens[i].token {
        Token::LBrace => {},
        _ => {
            return Err(parse_error("bad token", tokens[i].file_posn));
        },
    }
    let (statements, j) = parse_statements(tokens, i + 1);
    if j >= tokens.len() {
        return Err(eof_error());
    }
    match &tokens[j].token {
        Token::RBrace => Ok((Body { statements }, j + 1)),
        _ => Err(parse_error("expected a closing brace", tokens[j].file_posn)),
    }
}

} // verus!
