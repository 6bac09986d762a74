use crate::ast::{
    AddExp, AddOp, AndExp, Body, CompExp, CompOp, Elif, Expression, IfExp, MulExp, OrExp, Parsed, Primary,
    Program, Statement, Tag, TaggedStatement, Type, Unary, WhileExp,
};
use crate::error::{ErrorType, FilePosition, SwindleError};
use vstd::prelude::*;

verus! {

/// The type checker's phase: every node carries its resolved type, and
/// variables are still identified by name.
pub struct Typed {}

impl Tag for Typed {
    type TypeTag = SwindleType;

    type StatementTag = SwindleType;

    type DeclareTag = SwindleType;

    type VariableID = String;

    type StringID = String;
}

/// A resolved static type.
#[derive(Debug, Copy, Clone, PartialEq, Eq, Structural)]
pub enum SwindleType {
    Int,
    String,
    Bool,
    Unit,
}

/// Whether a written surface type names the given resolved type.
pub open spec fn type_matches(typ: Type, swindle: SwindleType) -> bool {
    match (typ, swindle) {
        (Type::Int, SwindleType::Int) => true,
        (Type::String, SwindleType::String) => true,
        (Type::Bool, SwindleType::Bool) => true,
        (Type::Unit, SwindleType::Unit) => true,
        _ => false,
    }
}

/// The environment a scope sees: each visible name's declared type, later
/// bindings shadowing earlier ones.
pub type TypeEnv = Map<Seq<char>, SwindleType>;

/// The environment denoted by a list of bindings, later entries winning.
pub open spec fn map_of(entries: Seq<(String, SwindleType)>) -> TypeEnv
    decreases entries.len(),
{
    if entries.len() == 0 {
        Map::empty()
    } else {
        map_of(entries.drop_last()).insert(entries.last().0@, entries.last().1)
    }
}

proof fn lemma_map_of_found(entries: Seq<(String, SwindleType)>, i: int)
    requires
        0 <= i < entries.len(),
        forall|k: int| i < k < entries.len() ==> (#[trigger] entries[k]).0@ != entries[i].0@,
    ensures
        map_of(entries).contains_key(entries[i].0@),
        map_of(entries)[entries[i].0@] == entries[i].1,
    decreases entries.len(),
{
    if i < entries.len() - 1 {
        assert forall|k: int|
            i < k < entries.drop_last().len() implies (#[trigger] entries.drop_last()[k]).0@
            != entries.drop_last()[i].0@ by {
            assert(entries.drop_last()[k] == entries[k]);
        }
        lemma_map_of_found(entries.drop_last(), i);
        assert(entries[entries.len() - 1].0@ != entries[i].0@);
    }
}

proof fn lemma_map_of_absent(entries: Seq<(String, SwindleType)>, name: Seq<char>)
    requires
        forall|k: int| 0 <= k < entries.len() ==> (#[trigger] entries[k]).0@ != name,
    ensures
        !map_of(entries).contains_key(name),
    decreases entries.len(),
{
    if entries.len() > 0 {
        assert(entries.last() == entries[entries.len() - 1]);
        lemma_map_of_absent(entries.drop_last(), name);
    }
}

/// The scope-structured environment of declared variables.
pub struct TypeTable {
    entries: Vec<(String, SwindleType)>,
}

impl View for TypeTable {
    type V = TypeEnv;

    closed spec fn view(&self) -> TypeEnv {
        map_of(self.entries@)
    }
}

impl TypeTable {
    pub fn new() -> (r: TypeTable)
        ensures
            r@ == Map::<Seq<char>, SwindleType>::empty(),
    {
        TypeTable { entries: Vec::new() }
    }

    /// The type this environment gives `name`, shadowing respected.
    pub fn get(&self, name: &String) -> (r: Option<SwindleType>)
        ensures
            r == if self@.contains_key(name@) {
                Some(self@[name@])
            } else {
                None::<SwindleType>
            },
    {
        let mut i: usize = self.entries.len();
        while i > 0
            invariant
                i <= self.entries@.len(),
                forall|k: int|
                    i <= k < self.entries@.len() ==> (#[trigger] self.entries@[k]).0@ != name@,
            decreases i,
        {
            i = i - 1;
            if self.entries[i].0 == *name {
                proof {
                    lemma_map_of_found(self.entries@, i as int);
                }
                return Some(self.entries[i].1);
            }
        }
        proof {
            lemma_map_of_absent(self.entries@, name@);
        }
        None
    }

    /// Binds `name`, shadowing any previous binding.
    pub fn insert(&mut self, name: String, typ: SwindleType)
        ensures
            final(self)@ == old(self)@.insert(name@, typ),
    {
        let ghost entries0 = self.entries@;
        self.entries.push((name, typ));
        proof {
            assert(self.entries@.drop_last() =~= entries0);
        }
    }

    /// A copy handed to a nested block, so that its declarations do not
    /// leak back into this scope.
    pub fn clone_table(&self) -> (r: TypeTable)
        ensures
            r@ == self@,
    {
        let mut entries: Vec<(String, SwindleType)> = Vec::new();
        let mut i: usize = 0;
        while i < self.entries.len()
            invariant
                i <= self.entries@.len(),
                entries@.len() == i,
                forall|k: int| 0 <= k < i ==> entries@[k] == self.entries@[k],
            decreases self.entries@.len() - i,
        {
            let name = self.entries[i].0.clone();
            let typ = self.entries[i].1;
            entries.push((name, typ));
            i = i + 1;
        }
        proof {
            assert(entries@ =~= self.entries@);
        }
        TypeTable { entries }
    }
}

/// The checker's threaded state: the visible bindings, the position of
/// the statement being checked (for error reports), and whether the
/// checker is inside a loop body (for `break`/`continue`).
pub struct TyperState {
    pub types: TypeTable,
    pub scope: TypeTable,
    pub file_posn: FilePosition,
    pub in_loop: bool,
}

impl TyperState {
    pub fn new() -> (r: TyperState)
        ensures
            r.types@ == Map::<Seq<char>, SwindleType>::empty(),
            r.scope@ == Map::<Seq<char>, SwindleType>::empty(),
            r.in_loop == false,
    {
        TyperState {
            types: TypeTable::new(),
            scope: TypeTable::new(),
            file_posn: FilePosition::new(),
            in_loop: false,
        }
    }

    pub fn get(&self, varname: &String) -> (r: Option<SwindleType>)
        ensures
            r == if self.types@.contains_key(varname@) {
                Some(self.types@[varname@])
            } else {
                None::<SwindleType>
            },
    {
        self.types.get(varname)
    }

    /// Binds a fresh declaration: visible to the rest of this block and
    /// recorded as belonging to it.
    pub fn insert(&mut self, varname: String, typ: SwindleType)
        ensures
            final(self).types@ == old(self).types@.insert(varname@, typ),
            final(self).scope@ == old(self).scope@.insert(varname@, typ),
            final(self).file_posn == old(self).file_posn,
            final(self).in_loop == old(self).in_loop,
    {
        let name2 = varname.clone();
        self.types.insert(varname, typ);
        self.scope.insert(name2, typ);
    }
}

/// The typing judgment, one spec function per grammar level: the type a
/// construct has under the given environment, or nothing when one of the
/// rules in force rejects it. The executable checker returns `Ok` exactly
/// when these say the construct is well typed.
pub open spec fn wt_expression(env: TypeEnv, in_loop: bool, e: Expression<Parsed>) -> Option<
    SwindleType,
>
    decreases e,
{
    match e {
        Expression::Assign(_, x, e1) => match wt_expression(env, in_loop, *e1) {
            Some(t) => if env.contains_key(x@) && env[x@] == t {
                Some(t)
            } else {
                None
            },
            None => None,
        },
        Expression::OrExp(o) => wt_orexp(env, in_loop, *o),
    }
}

pub open spec fn wt_orexp(env: TypeEnv, in_loop: bool, e: OrExp<Parsed>) -> Option<SwindleType>
    decreases e,
{
    match e {
        OrExp::Or(a, o) => {
            if wt_andexp(env, in_loop, *a) == Some(SwindleType::Bool) && wt_orexp(env, in_loop, *o)
                == Some(SwindleType::Bool) {
                Some(SwindleType::Bool)
            } else {
                None
            }
        },
        OrExp::AndExp(a) => wt_andexp(env, in_loop, *a),
    }
}

pub open spec fn wt_andexp(env: TypeEnv, in_loop: bool, e: AndExp<Parsed>) -> Option<SwindleType>
    decreases e,
{
    match e {
        AndExp::And(c, a) => {
            if wt_compexp(env, in_loop, *c) == Some(SwindleType::Bool) && wt_andexp(
                env,
                in_loop,
                *a,
            ) == Some(SwindleType::Bool) {
                Some(SwindleType::Bool)
            } else {
                None
            }
        },
        AndExp::CompExp(c) => wt_compexp(env, in_loop, *c),
    }
}

/// Equality and inequality ask the same static type on both sides;
/// the four ordering comparisons ask integers on both.
pub open spec fn wt_compexp(env: TypeEnv, in_loop: bool, e: CompExp<Parsed>) -> Option<SwindleType>
    decreases e,
{
    match e {
        CompExp::Comp(op, a1, a2) => match (
            wt_addexp(env, in_loop, *a1),
            wt_addexp(env, in_loop, *a2),
        ) {
            (Some(t1), Some(t2)) => match op {
                CompOp::Eq(_) | CompOp::Neq(_) => if t1 == t2 {
                    Some(SwindleType::Bool)
                } else {
                    None
                },
                _ => if t1 == SwindleType::Int && t2 == SwindleType::Int {
                    Some(SwindleType::Bool)
                } else {
                    None
                },
            },
            _ => None,
        },
        CompExp::AddExp(a) => wt_addexp(env, in_loop, *a),
    }
}

/// `+` is integer addition or string concatenation; `-` wants integers.
pub open spec fn wt_addexp(env: TypeEnv, in_loop: bool, e: AddExp<Parsed>) -> Option<SwindleType>
    decreases e,
{
    match e {
        AddExp::Add(op, m, a) => match (wt_mulexp(env, in_loop, *m), wt_addexp(env, in_loop, *a)) {
            (Some(t1), Some(t2)) => match op {
                AddOp::Sum(_) => if t1 == SwindleType::Int && t2 == SwindleType::Int {
                    Some(SwindleType::Int)
                } else if t1 == SwindleType::String && t2 == SwindleType::String {
                    Some(SwindleType::String)
                } else {
                    None
                },
                AddOp::Difference => if t1 == SwindleType::Int && t2 == SwindleType::Int {
                    Some(SwindleType::Int)
                } else {
                    None
                },
            },
            _ => None,
        },
        AddExp::MulExp(m) => wt_mulexp(env, in_loop, *m),
    }
}

pub open spec fn wt_mulexp(env: TypeEnv, in_loop: bool, e: MulExp<Parsed>) -> Option<SwindleType>
    decreases e,
{
    match e {
        MulExp::Mul(_, u, m) => {
            if wt_unary(env, in_loop, *u) == Some(SwindleType::Int) && wt_mulexp(env, in_loop, *m)
                == Some(SwindleType::Int) {
                Some(SwindleType::Int)
            } else {
                None
            }
        },
        MulExp::Unary(u) => wt_unary(env, in_loop, *u),
    }
}

pub open spec fn wt_unary(env: TypeEnv, in_loop: bool, e: Unary<Parsed>) -> Option<SwindleType>
    decreases e,
{
    match e {
        Unary::Negate(u) => if wt_unary(env, in_loop, *u) == Some(SwindleType::Int) {
            Some(SwindleType::Int)
        } else {
            None
        },
        Unary::Not(u) => if wt_unary(env, in_loop, *u) == Some(SwindleType::Bool) {
            Some(SwindleType::Bool)
        } else {
            None
        },
        Unary::Primary(p) => wt_primary(env, in_loop, *p),
    }
}

pub open spec fn wt_primary(env: TypeEnv, in_loop: bool, e: Primary<Parsed>) -> Option<SwindleType>
    decreases e,
{
    match e {
        Primary::Paren(e1) => wt_expression(env, in_loop, *e1),
        Primary::IntLit(_) => Some(SwindleType::Int),
        Primary::StringLit(_) => Some(SwindleType::String),
        Primary::BoolLit(_) => Some(SwindleType::Bool),
        Primary::Variable(x) => if env.contains_key(x@) {
            Some(env[x@])
        } else {
            None
        },
        Primary::IfExp(ie) => wt_ifexp(env, in_loop, ie),
        Primary::WhileExp(we) => wt_whileexp(env, in_loop, we),
        Primary::Unit => Some(SwindleType::Unit),
    }
}

/// An `if` wants a boolean condition and one common type over the `then`
/// body, every `elif` body and the `else` body; a missing `else` is an
/// empty body, whose type is unit.
pub open spec fn wt_ifexp(env: TypeEnv, in_loop: bool, e: IfExp<Parsed>) -> Option<SwindleType>
    decreases e,
{
    if wt_expression(env, in_loop, *e.cond) == Some(SwindleType::Bool) {
        match wt_body(env, in_loop, e.body) {
            Some(t) => if wt_elifs(env, in_loop, e.elifs@, t) {
                if wt_body(env, in_loop, e.els) == Some(t) {
                    Some(t)
                } else {
                    None
                }
            } else {
                None
            },
            None => None,
        }
    } else {
        None
    }
}

pub open spec fn wt_elifs(
    env: TypeEnv,
    in_loop: bool,
    elifs: Seq<Elif<Parsed>>,
    t: SwindleType,
) -> bool
    decreases elifs,
{
    if elifs.len() == 0 {
        true
    } else {
        wt_elif(env, in_loop, elifs[0]) == Some(t) && wt_elifs(env, in_loop, elifs.drop_first(), t)
    }
}

pub open spec fn wt_elif(env: TypeEnv, in_loop: bool, e: Elif<Parsed>) -> Option<SwindleType>
    decreases e,
{
    if wt_expression(env, in_loop, *e.cond) == Some(SwindleType::Bool) {
        wt_body(env, in_loop, e.body)
    } else {
        None
    }
}

/// A `while` wants a boolean condition; both the condition and the body
/// are checked with the loop flag raised (a jump in the condition belongs
/// to this loop), and the loop itself is a unit-typed expression.
pub open spec fn wt_whileexp(env: TypeEnv, in_loop: bool, e: WhileExp<Parsed>) -> Option<
    SwindleType,
>
    decreases e,
{
    if wt_expression(env, true, *e.cond) == Some(SwindleType::Bool) && wt_body(
        env,
        true,
        e.body,
    ) is Some {
        Some(SwindleType::Unit)
    } else {
        None
    }
}

/// A statement's type together with the environment and current-block
/// scope it leaves behind: only a declaration extends them, a name
/// redeclared in the same block or a jump outside any loop is rejected
/// (a declaration may shadow an outer block's binding), and every
/// non-expression statement is unit-typed.
pub open spec fn wt_statement(
    env: TypeEnv,
    scope: TypeEnv,
    in_loop: bool,
    s: Statement<Parsed>,
) -> Option<(SwindleType, TypeEnv, TypeEnv)>
    decreases s,
{
    match s {
        Statement::Declare(typ, x, e1) => {
            if scope.contains_key(x@) {
                None
            } else {
                match wt_expression(env, in_loop, *e1) {
                    Some(t) => if type_matches(typ, t) {
                        Some((SwindleType::Unit, env.insert(x@, t), scope.insert(x@, t)))
                    } else {
                        None
                    },
                    None => None,
                }
            }
        },
        Statement::Write(_, _, e1) => match wt_expression(env, in_loop, *e1) {
            Some(_) => Some((SwindleType::Unit, env, scope)),
            None => None,
        },
        Statement::Break => if in_loop {
            Some((SwindleType::Unit, env, scope))
        } else {
            None
        },
        Statement::Continue => if in_loop {
            Some((SwindleType::Unit, env, scope))
        } else {
            None
        },
        Statement::Expression(e1) => match wt_expression(env, in_loop, *e1) {
            Some(t) => Some((t, env, scope)),
            None => None,
        },
    }
}

/// A block, checked left to right under its own copy of the environment:
/// its type is its last statement's type (unit when empty), and no
/// statement may follow a `break` or `continue` in the same block.
pub open spec fn wt_stmts(
    env: TypeEnv,
    scope: TypeEnv,
    in_loop: bool,
    stmts: Seq<TaggedStatement<Parsed>>,
    last: SwindleType,
) -> Option<SwindleType>
    decreases stmts,
{
    if stmts.len() == 0 {
        Some(last)
    } else {
        match wt_statement(env, scope, in_loop, stmts[0].statement) {
            Some((t, env2, scope2)) => {
                if stmts[0].statement is Break || stmts[0].statement is Continue {
                    if stmts.len() == 1 {
                        Some(t)
                    } else {
                        None
                    }
                } else {
                    wt_stmts(env2, scope2, in_loop, stmts.drop_first(), t)
                }
            },
            None => None,
        }
    }
}

pub open spec fn wt_body(env: TypeEnv, in_loop: bool, b: Body<Parsed>) -> Option<SwindleType>
    decreases b,
{
    wt_stmts(env, Map::empty(), in_loop, b.statements@, SwindleType::Unit)
}

/// A whole program: every top-level statement in order, starting from
/// the empty environment and outside any loop.
pub open spec fn wt_prog(env: TypeEnv, scope: TypeEnv, stmts: Seq<TaggedStatement<Parsed>>) -> bool
    decreases stmts,
{
    if stmts.len() == 0 {
        true
    } else {
        match wt_statement(env, scope, false, stmts[0].statement) {
            Some((_, env2, scope2)) => wt_prog(env2, scope2, stmts.drop_first()),
            None => false,
        }
    }
}

/// Builds the failure every rejection of this pass reports.
fn typer_error(message: &str, file_posn: FilePosition) -> (e: SwindleError)
    ensures
        e.error_type == ErrorType::Typechecker,
        e.file_posn == file_posn,
{
    SwindleError { message: String::from_str(message), file_posn, error_type: ErrorType::Typechecker }
}

/// Whether a written surface type names the given resolved type.
pub fn type_matches_swindle_type(typ: &Type, swindle: &SwindleType) -> (r: bool)
    ensures
        r == type_matches(*typ, *swindle),
{
    match (typ, swindle) {
        (Type::Int, SwindleType::Int) => true,
        (Type::String, SwindleType::String) => true,
        (Type::Bool, SwindleType::Bool) => true,
        (Type::Unit, SwindleType::Unit) => true,
        _ => false,
    }
}

/// Checks a whole program under the empty environment, returning the
/// typed tree exactly when the typing judgment accepts every statement
/// in order, and the first rejection otherwise.
pub fn type_program(program: Program<Parsed>) -> (r: Result<Program<Typed>, SwindleError>)
    ensures
        (r is Ok) == wt_prog(Map::empty(), Map::empty(), program.statements@),
        r matches Ok(tp) ==> tp.statements@.len() == program.statements@.len(),
        r matches Err(e) ==> e.error_type == ErrorType::Typechecker,
{
    let mut state = TyperState::new();
    match type_prog_stmts(&mut state, program.statements) {
        Ok(statements) => Ok(Program { statements }),
        Err(e) => Err(e),
    }
}

fn type_prog_stmts(state: &mut TyperState, stmts: Vec<TaggedStatement<Parsed>>) -> (r: Result<
    Vec<TaggedStatement<Typed>>,
    SwindleError,
>)
    requires
        old(state).in_loop == false,
    ensures
        (r is Ok) == wt_prog(old(state).types@, old(state).scope@, stmts@),
        r matches Ok(out) ==> out@.len() == stmts@.len(),
        r matches Err(e) ==> e.error_type == ErrorType::Typechecker,
    decreases stmts@,
{
    let mut stmts = stmts;
    let ghost s0 = stmts@;
    if stmts.len() == 0 {
        return Ok(Vec::new());
    }
    let ts = stmts.remove(0);
    proof {
        assert(stmts@ =~= s0.drop_first());
        assert(ts == s0[0]);
    }
    state.file_posn = ts.tag;
    let (st, t) = match type_statement(state, ts.statement) {
        Ok(p) => p,
        Err(e) => return Err(e),
    };
    let mut rest = match type_prog_stmts(state, stmts) {
        Ok(v) => v,
        Err(e) => return Err(e),
    };
    let mut out: Vec<TaggedStatement<Typed>> = Vec::new();
    out.push(TaggedStatement::new(t, st));
    out.append(&mut rest);
    Ok(out)
}

/// Checks one statement: a declaration must not rebind a name already
/// bound in this scope (that failure is reported at the statement's own
/// position) and must match its initializer's type; jumps are legal only
/// inside a loop; the environment grows only by a declaration.
fn type_statement(state: &mut TyperState, statement: Statement<Parsed>) -> (r: Result<
    (Statement<Typed>, SwindleType),
    SwindleError,
>)
    ensures
        final(state).in_loop == old(state).in_loop,
        final(state).file_posn == old(state).file_posn,
        r matches Ok(p) ==> wt_statement(
            old(state).types@,
            old(state).scope@,
            old(state).in_loop,
            statement,
        ) == Some((p.1, final(state).types@, final(state).scope@)),
        r is Err ==> wt_statement(
            old(state).types@,
            old(state).scope@,
            old(state).in_loop,
            statement,
        ) is None && final(state).types@ == old(state).types@ && final(state).scope@ == old(
            state,
        ).scope@,
        r matches Err(e) ==> e.error_type == ErrorType::Typechecker,
        (statement matches Statement::Declare(_, x, _) && old(state).scope@.contains_key(x@))
            ==> (r matches Err(e) && e.file_posn == old(state).file_posn),
    decreases statement,
{
    match statement {
        Statement::Declare(typ, varname, e1) => {
            match state.scope.get(&varname) {
                Some(_) => Err(typer_error("cannot declare a variable twice", state.file_posn)),
                None => {
                    let (te, t) = match type_expression(state, *e1) {
                        Ok(p) => p,
                        Err(e) => return Err(e),
                    };
                    if type_matches_swindle_type(&typ, &t) {
                        state.insert(varname.clone(), t);
                        Ok((Statement::Declare(t, varname, te), SwindleType::Unit))
                    } else {
                        Err(typer_error("bad types for declare", state.file_posn))
                    }
                },
            }
        },
        Statement::Write(_, newline, e1) => {
            let (te, t) = match type_expression(state, *e1) {
                Ok(p) => p,
                Err(e) => return Err(e),
            };
            Ok((Statement::Write(t, newline, te), SwindleType::Unit))
        },
        Statement::Break => {
            if state.in_loop {
                Ok((Statement::Break, SwindleType::Unit))
            } else {
                Err(typer_error("can only use a break statement in a loop", state.file_posn))
            }
        },
        Statement::Continue => {
            if state.in_loop {
                Ok((Statement::Continue, SwindleType::Unit))
            } else {
                Err(typer_error("can only use a continue statement in a loop", state.file_posn))
            }
        },
        Statement::Expression(e1) => {
            let (te, t) = match type_expression(state, *e1) {
                Ok(p) => p,
                Err(e) => return Err(e),
            };
            Ok((Statement::Expression(te), t))
        },
    }
}

fn type_expression(state: &TyperState, expression: Expression<Parsed>) -> (r: Result<
    (Box<Expression<Typed>>, SwindleType),
    SwindleError,
>)
    ensures
        r matches Ok(p) ==> wt_expression(state.types@, state.in_loop, expression) == Some(p.1),
        r is Err ==> wt_expression(state.types@, state.in_loop, expression) is None,
        r matches Err(e) ==> e.error_type == ErrorType::Typechecker,
    decreases expression,
{
    match expression {
        Expression::Assign(_, varname, e1) => {
            match state.get(&varname) {
                Some(tv) => {
                    let (te, t) = match type_expression(state, *e1) {
                        Ok(p) => p,
                        Err(e) => return Err(e),
                    };
                    if t == tv {
                        Ok((Box::new(Expression::Assign(t, varname, te)), t))
                    } else {
                        Err(typer_error("bad types for assign", state.file_posn))
                    }
                },
                None => Err(typer_error("undeclared variable", state.file_posn)),
            }
        },
        Expression::OrExp(o) => {
            match type_orexp(state, *o) {
                Ok((to, t)) => Ok((Box::new(Expression::OrExp(to)), t)),
                Err(e) => Err(e),
            }
        },
    }
}

fn type_orexp(state: &TyperState, orexp: OrExp<Parsed>) -> (r: Result<
    (Box<OrExp<Typed>>, SwindleType),
    SwindleError,
>)
    ensures
        r matches Ok(p) ==> wt_orexp(state.types@, state.in_loop, orexp) == Some(p.1),
        r is Err ==> wt_orexp(state.types@, state.in_loop, orexp) is None,
        r matches Err(e) ==> e.error_type == ErrorType::Typechecker,
    decreases orexp,
{
    match orexp {
        OrExp::Or(a, o) => {
            let (ta, t1) = match type_andexp(state, *a) {
                Ok(p) => p,
                Err(e) => return Err(e),
            };
            let (to, t2) = match type_orexp(state, *o) {
                Ok(p) => p,
                Err(e) => return Err(e),
            };
            match (t1, t2) {
                (SwindleType::Bool, SwindleType::Bool) => Ok(
                    (Box::new(OrExp::Or(ta, to)), SwindleType::Bool),
                ),
                _ => Err(typer_error("bad types for or", state.file_posn)),
            }
        },
        OrExp::AndExp(a) => {
            match type_andexp(state, *a) {
                Ok((ta, t)) => Ok((Box::new(OrExp::AndExp(ta)), t)),
                Err(e) => Err(e),
            }
        },
    }
}

fn type_andexp(state: &TyperState, andexp: AndExp<Parsed>) -> (r: Result<
    (Box<AndExp<Typed>>, SwindleType),
    SwindleError,
>)
    ensures
        r matches Ok(p) ==> wt_andexp(state.types@, state.in_loop, andexp) == Some(p.1),
        r is Err ==> wt_andexp(state.types@, state.in_loop, andexp) is None,
        r matches Err(e) ==> e.error_type == ErrorType::Typechecker,
    decreases andexp,
{
    match andexp {
        AndExp::And(c, a) => {
            let (tc, t1) = match type_compexp(state, *c) {
                Ok(p) => p,
                Err(e) => return Err(e),
            };
            let (ta, t2) = match type_andexp(state, *a) {
                Ok(p) => p,
                Err(e) => return Err(e),
            };
            match (t1, t2) {
                (SwindleType::Bool, SwindleType::Bool) => Ok(
                    (Box::new(AndExp::And(tc, ta)), SwindleType::Bool),
                ),
                _ => Err(typer_error("bad types for and", state.file_posn)),
            }
        },
        AndExp::CompExp(c) => {
            match type_compexp(state, *c) {
                Ok((tc, t)) => Ok((Box::new(AndExp::CompExp(tc)), t)),
                Err(e) => Err(e),
            }
        },
    }
}

fn type_compexp(state: &TyperState, compexp: CompExp<Parsed>) -> (r: Result<
    (Box<CompExp<Typed>>, SwindleType),
    SwindleError,
>)
    ensures
        r matches Ok(p) ==> wt_compexp(state.types@, state.in_loop, compexp) == Some(p.1),
        r is Err ==> wt_compexp(state.types@, state.in_loop, compexp) is None,
        r matches Err(e) ==> e.error_type == ErrorType::Typechecker,
    decreases compexp,
{
    match compexp {
        CompExp::Comp(op, a1, a2) => {
            let (t1e, t1) = match type_addexp(state, *a1) {
                Ok(p) => p,
                Err(e) => return Err(e),
            };
            let (t2e, t2) = match type_addexp(state, *a2) {
                Ok(p) => p,
                Err(e) => return Err(e),
            };
            match op {
                CompOp::Eq(_) => {
                    if t1 == t2 {
                        Ok((Box::new(CompExp::Comp(CompOp::Eq(t1), t1e, t2e)), SwindleType::Bool))
                    } else {
                        Err(
                            typer_error(
                                "can't check equality for non-matching types",
                                state.file_posn,
                            ),
                        )
                    }
                },
                CompOp::Neq(_) => {
                    if t1 == t2 {
                        Ok((Box::new(CompExp::Comp(CompOp::Neq(t1), t1e, t2e)), SwindleType::Bool))
                    } else {
                        Err(
                            typer_error(
                                "can't check equality for non-matching types",
                                state.file_posn,
                            ),
                        )
                    }
                },
                _ => {
                    match (t1, t2) {
                        (SwindleType::Int, SwindleType::Int) => {
                            let top = match op {
                                CompOp::Leq => CompOp::Leq,
                                CompOp::Lt => CompOp::Lt,
                                CompOp::Gt => CompOp::Gt,
                                _ => CompOp::Geq,
                            };
                            Ok((Box::new(CompExp::Comp(top, t1e, t2e)), SwindleType::Bool))
                        },
                        _ => Err(typer_error("can only compare integers", state.file_posn)),
                    }
                },
            }
        },
        CompExp::AddExp(a) => {
            match type_addexp(state, *a) {
                Ok((ta, t)) => Ok((Box::new(CompExp::AddExp(ta)), t)),
                Err(e) => Err(e),
            }
        },
    }
}

fn type_addexp(state: &TyperState, addexp: AddExp<Parsed>) -> (r: Result<
    (Box<AddExp<Typed>>, SwindleType),
    SwindleError,
>)
    ensures
        r matches Ok(p) ==> wt_addexp(state.types@, state.in_loop, addexp) == Some(p.1),
        r is Err ==> wt_addexp(state.types@, state.in_loop, addexp) is None,
        r matches Err(e) ==> e.error_type == ErrorType::Typechecker,
    decreases addexp,
{
    match addexp {
        AddExp::Add(op, m, a) => {
            let (tm, t1) = match type_mulexp(state, *m) {
                Ok(p) => p,
                Err(e) => return Err(e),
            };
            let (ta, t2) = match type_addexp(state, *a) {
                Ok(p) => p,
                Err(e) => return Err(e),
            };
            match (op, t1, t2) {
                (AddOp::Sum(_), SwindleType::String, SwindleType::String) => Ok(
                    (
                        Box::new(AddExp::Add(AddOp::Sum(SwindleType::String), tm, ta)),
                        SwindleType::String,
                    ),
                ),
                (AddOp::Sum(_), SwindleType::Int, SwindleType::Int) => Ok(
                    (
                        Box::new(AddExp::Add(AddOp::Sum(SwindleType::Int), tm, ta)),
                        SwindleType::Int,
                    ),
                ),
                (AddOp::Difference, SwindleType::Int, SwindleType::Int) => Ok(
                    (Box::new(AddExp::Add(AddOp::Difference, tm, ta)), SwindleType::Int),
                ),
                _ => Err(typer_error("bad types for addition", state.file_posn)),
            }
        },
        AddExp::MulExp(m) => {
            match type_mulexp(state, *m) {
                Ok((tm, t)) => Ok((Box::new(AddExp::MulExp(tm)), t)),
                Err(e) => Err(e),
            }
        },
    }
}

fn type_mulexp(state: &TyperState, mulexp: MulExp<Parsed>) -> (r: Result<
    (Box<MulExp<Typed>>, SwindleType),
    SwindleError,
>)
    ensures
        r matches Ok(p) ==> wt_mulexp(state.types@, state.in_loop, mulexp) == Some(p.1),
        r is Err ==> wt_mulexp(state.types@, state.in_loop, mulexp) is None,
        r matches Err(e) ==> e.error_type == ErrorType::Typechecker,
    decreases mulexp,
{
    match mulexp {
        MulExp::Mul(op, u, m) => {
            let (tu, t1) = match type_unary(state, *u) {
                Ok(p) => p,
                Err(e) => return Err(e),
            };
            let (tm, t2) = match type_mulexp(state, *m) {
                Ok(p) => p,
                Err(e) => return Err(e),
            };
            match (t1, t2) {
                (SwindleType::Int, SwindleType::Int) => Ok(
                    (Box::new(MulExp::Mul(op, tu, tm)), SwindleType::Int),
                ),
                _ => Err(typer_error("bad types for multiplication", state.file_posn)),
            }
        },
        MulExp::Unary(u) => {
            match type_unary(state, *u) {
                Ok((tu, t)) => Ok((Box::new(MulExp::Unary(tu)), t)),
                Err(e) => Err(e),
            }
        },
    }
}

fn type_unary(state: &TyperState, unary: Unary<Parsed>) -> (r: Result<
    (Box<Unary<Typed>>, SwindleType),
    SwindleError,
>)
    ensures
        r matches Ok(p) ==> wt_unary(state.types@, state.in_loop, unary) == Some(p.1),
        r is Err ==> wt_unary(state.types@, state.in_loop, unary) is None,
        r matches Err(e) ==> e.error_type == ErrorType::Typechecker,
    decreases unary,
{
    match unary {
        Unary::Negate(u) => {
            let (tu, t) = match type_unary(state, *u) {
                Ok(p) => p,
                Err(e) => return Err(e),
            };
            match t {
                SwindleType::Int => Ok((Box::new(Unary::Negate(tu)), SwindleType::Int)),
                _ => Err(typer_error("can only negate integers", state.file_posn)),
            }
        },
        Unary::Not(u) => {
            let (tu, t) = match type_unary(state, *u) {
                Ok(p) => p,
                Err(e) => return Err(e),
            };
            match t {
                SwindleType::Bool => Ok((Box::new(Unary::Not(tu)), SwindleType::Bool)),
                _ => Err(typer_error("can only not a boolean", state.file_posn)),
            }
        },
        Unary::Primary(p) => {
            match type_primary(state, *p) {
                Ok((tp, t)) => Ok((Box::new(Unary::Primary(tp)), t)),
                Err(e) => Err(e),
            }
        },
    }
}

fn type_primary(state: &TyperState, primary: Primary<Parsed>) -> (r: Result<
    (Box<Primary<Typed>>, SwindleType),
    SwindleError,
>)
    ensures
        r matches Ok(p) ==> wt_primary(state.types@, state.in_loop, primary) == Some(p.1),
        r is Err ==> wt_primary(state.types@, state.in_loop, primary) is None,
        r matches Err(e) ==> e.error_type == ErrorType::Typechecker,
    decreases primary,
{
    match primary {
        Primary::Paren(e1) => {
            match type_expression(state, *e1) {
                Ok((te, t)) => Ok((Box::new(Primary::Paren(te)), t)),
                Err(e) => Err(e),
            }
        },
        Primary::IntLit(n) => Ok((Box::new(Primary::IntLit(n)), SwindleType::Int)),
        Primary::StringLit(s) => Ok((Box::new(Primary::StringLit(s)), SwindleType::String)),
        Primary::BoolLit(b) => Ok((Box::new(Primary::BoolLit(b)), SwindleType::Bool)),
        Primary::Variable(varname) => {
            match state.get(&varname) {
                Some(typ) => Ok((Box::new(Primary::Variable(varname)), typ)),
                None => Err(typer_error("undeclared variable", state.file_posn)),
            }
        },
        Primary::IfExp(ie) => {
            match type_ifexp(state, ie) {
                Ok((tie, t)) => Ok((Box::new(Primary::IfExp(tie)), t)),
                Err(e) => Err(e),
            }
        },
        Primary::WhileExp(we) => {
            match type_whileexp(state, we) {
                Ok((twe, t)) => Ok((Box::new(Primary::WhileExp(twe)), t)),
                Err(e) => Err(e),
            }
        },
        Primary::Unit => Ok((Box::new(Primary::Unit), SwindleType::Unit)),
    }
}

fn type_whileexp(state: &TyperState, whileexp: WhileExp<Parsed>) -> (r: Result<
    (WhileExp<Typed>, SwindleType),
    SwindleError,
>)
    ensures
        r matches Ok(p) ==> wt_whileexp(state.types@, state.in_loop, whileexp) == Some(p.1),
        r is Err ==> wt_whileexp(state.types@, state.in_loop, whileexp) is None,
        r matches Err(e) ==> e.error_type == ErrorType::Typechecker,
    decreases whileexp,
{
    let WhileExp { tag: _, cond, body } = whileexp;
    let loop_state = TyperState {
        types: state.types.clone_table(),
        scope: TypeTable::new(),
        file_posn: state.file_posn,
        in_loop: true,
    };
    let (tcond, tc) = match type_expression(&loop_state, *cond) {
        Ok(p) => p,
        Err(e) => return Err(e),
    };
    match tc {
        SwindleType::Bool => {},
        _ => {
            return Err(typer_error("while condition must be a bool", state.file_posn));
        },
    }
    let (tbody, tb) = match type_body(&loop_state, body) {
        Ok(p) => p,
        Err(e) => return Err(e),
    };
    Ok((WhileExp { tag: tb, cond: tcond, body: tbody }, SwindleType::Unit))
}

fn type_ifexp(state: &TyperState, ifexp: IfExp<Parsed>) -> (r: Result<
    (IfExp<Typed>, SwindleType),
    SwindleError,
>)
    ensures
        r matches Ok(p) ==> wt_ifexp(state.types@, state.in_loop, ifexp) == Some(p.1),
        r is Err ==> wt_ifexp(state.types@, state.in_loop, ifexp) is None,
        r matches Err(e) ==> e.error_type == ErrorType::Typechecker,
    decreases ifexp,
{
    let IfExp { tag: _, cond, body, elifs, els } = ifexp;
    let (tcond, tc) = match type_expression(state, *cond) {
        Ok(p) => p,
        Err(e) => return Err(e),
    };
    match tc {
        SwindleType::Bool => {},
        _ => {
            return Err(typer_error("if condition must be bool", state.file_posn));
        },
    }
    let (tbody, iftype) = match type_body(state, body) {
        Ok(p) => p,
        Err(e) => return Err(e),
    };
    let telifs = match type_elifs(state, elifs, iftype) {
        Ok(v) => v,
        Err(e) => return Err(e),
    };
    let (tels, telstype) = match type_body(state, els) {
        Ok(p) => p,
        Err(e) => return Err(e),
    };
    if telstype == iftype {
        Ok(
            (
                IfExp { tag: iftype, cond: tcond, body: tbody, elifs: telifs, els: tels },
                iftype,
            ),
        )
    } else {
        Err(typer_error("type of else body doesn't match if body", state.file_posn))
    }
}

fn type_elifs(state: &TyperState, elifs: Vec<Elif<Parsed>>, t: SwindleType) -> (r: Result<
    Vec<Elif<Typed>>,
    SwindleError,
>)
    ensures
        (r is Ok) == wt_elifs(state.types@, state.in_loop, elifs@, t),
        r matches Err(e) ==> e.error_type == ErrorType::Typechecker,
    decreases elifs@,
{
    let mut elifs = elifs;
    let ghost s0 = elifs@;
    if elifs.len() == 0 {
        return Ok(Vec::new());
    }
    let first = elifs.remove(0);
    proof {
        assert(elifs@ =~= s0.drop_first());
        assert(first == s0[0]);
    }
    let (telif, te) = match type_elif(state, first) {
        Ok(p) => p,
        Err(e) => return Err(e),
    };
    if te != t {
        return Err(typer_error("type of elif body doesn't match if body", state.file_posn));
    }
    let mut rest = match type_elifs(state, elifs, t) {
        Ok(v) => v,
        Err(e) => return Err(e),
    };
    let mut out: Vec<Elif<Typed>> = Vec::new();
    out.push(telif);
    out.append(&mut rest);
    Ok(out)
}

fn type_elif(state: &TyperState, elif: Elif<Parsed>) -> (r: Result<
    (Elif<Typed>, SwindleType),
    SwindleError,
>)
    ensures
        r matches Ok(p) ==> wt_elif(state.types@, state.in_loop, elif) == Some(p.1),
        r is Err ==> wt_elif(state.types@, state.in_loop, elif) is None,
        r matches Err(e) ==> e.error_type == ErrorType::Typechecker,
    decreases elif,
{
    let Elif { cond, body } = elif;
    let (tcond, tc) = match type_expression(state, *cond) {
        Ok(p) => p,
        Err(e) => return Err(e),
    };
    match tc {
        SwindleType::Bool => {},
        _ => {
            return Err(typer_error("if condition must be bool", state.file_posn));
        },
    }
    let (tbody, tb) = match type_body(state, body) {
        Ok(p) => p,
        Err(e) => return Err(e),
    };
    Ok((Elif { cond: tcond, body: tbody }, tb))
}

/// Checks a block under a copy of the environment, so that declarations
/// inside it stay invisible outside; the block's type is its last
/// statement's type, or unit when it is empty.
fn type_body(state: &TyperState, body: Body<Parsed>) -> (r: Result<
    (Body<Typed>, SwindleType),
    SwindleError,
>)
    ensures
        r matches Ok(p) ==> wt_body(state.types@, state.in_loop, body) == Some(p.1),
        r is Err ==> wt_body(state.types@, state.in_loop, body) is None,
        r matches Err(e) ==> e.error_type == ErrorType::Typechecker,
    decreases body,
{
    let mut inner = TyperState {
        types: state.types.clone_table(),
        scope: TypeTable::new(),
        file_posn: state.file_posn,
        in_loop: state.in_loop,
    };
    match type_stmts(&mut inner, body.statements, SwindleType::Unit) {
        Ok((statements, t)) => Ok((Body { statements }, t)),
        Err(e) => Err(e),
    }
}

fn type_stmts(
    state: &mut TyperState,
    stmts: Vec<TaggedStatement<Parsed>>,
    last: SwindleType,
) -> (r: Result<(Vec<TaggedStatement<Typed>>, SwindleType), SwindleError>)
    ensures
        r matches Ok(p) ==> wt_stmts(
            old(state).types@,
            old(state).scope@,
            old(state).in_loop,
            stmts@,
            last,
        ) == Some(p.1),
        r is Err ==> wt_stmts(
            old(state).types@,
            old(state).scope@,
            old(state).in_loop,
            stmts@,
            last,
        ) is None,
        r matches Err(e) ==> e.error_type == ErrorType::Typechecker,
    decreases stmts@,
{
    let mut stmts = stmts;
    let ghost s0 = stmts@;
    if stmts.len() == 0 {
        return Ok((Vec::new(), last));
    }
    let ts = stmts.remove(0);
    proof {
        assert(stmts@ =~= s0.drop_first());
        assert(ts == s0[0]);
    }
    state.file_posn = ts.tag;
    let is_jump = match &ts.statement {
        Statement::Break => true,
        Statement::Continue => true,
        _ => false,
    };
    let (st, t) = match type_statement(state, ts.statement) {
        Ok(p) => p,
        Err(e) => return Err(e),
    };
    if is_jump {
        if stmts.len() > 0 {
            return Err(typer_error("unreachable statement", state.file_posn));
        }
        let mut out: Vec<TaggedStatement<Typed>> = Vec::new();
        out.push(TaggedStatement::new(t, st));
        return Ok((out, t));
    }
    let (mut rest, tr) = match type_stmts(state, stmts, t) {
        Ok(p) => p,
        Err(e) => return Err(e),
    };
    let mut out: Vec<TaggedStatement<Typed>> = Vec::new();
    out.push(TaggedStatement::new(t, st));
    out.append(&mut rest);
    Ok((out, tr))
}

/// An empty block is unit-typed: part of the block-value law.
pub proof fn lemma_empty_block_is_unit(env: TypeEnv, in_loop: bool, b: Body<Parsed>)
    requires
        b.statements@.len() == 0,
    ensures
        wt_body(env, in_loop, b) == Some(SwindleType::Unit),
{
}

/// A non-empty block's type is its last statement's type, under the
/// environment the earlier statements built: the block-value law.
pub proof fn lemma_block_type_is_last_statement(
    env: TypeEnv,
    scope: TypeEnv,
    in_loop: bool,
    stmts: Seq<TaggedStatement<Parsed>>,
    last: SwindleType,
    t: SwindleType,
)
    requires
        wt_stmts(env, scope, in_loop, stmts, last) == Some(t),
        stmts.len() > 0,
    ensures
        exists|env2: TypeEnv, scope2: TypeEnv|
            #[trigger] wt_statement(env2, scope2, in_loop, stmts.last().statement) matches Some(p)
                && p.0 == t,
    decreases stmts,
{
    let s = stmts[0].statement;
    match wt_statement(env, scope, in_loop, s) {
        Some((t0, env1, scope1)) => {
            if s is Break || s is Continue {
                assert(stmts.len() == 1);
                assert(stmts.last() == stmts[0]);
            } else {
                if stmts.len() == 1 {
                    assert(wt_stmts(env1, scope1, in_loop, stmts.drop_first(), t0) == Some(t0));
                    assert(stmts.last() == stmts[0]);
                } else {
                    lemma_block_type_is_last_statement(
                        env1,
                        scope1,
                        in_loop,
                        stmts.drop_first(),
                        t0,
                        t,
                    );
                    assert(stmts.drop_first().last() == stmts.last());
                }
            }
        },
        None => {},
    }
}

/// `break` and `continue` outside any loop never type-check.
pub proof fn lemma_jump_outside_loop_rejected(env: TypeEnv, scope: TypeEnv, s: Statement<Parsed>)
    requires
        s is Break || s is Continue,
    ensures
        wt_statement(env, scope, false, s) is None,
{
}

/// A statement following a `break` or `continue` in the same block never
/// type-checks.
pub proof fn lemma_statement_after_jump_rejected(
    env: TypeEnv,
    scope: TypeEnv,
    in_loop: bool,
    stmts: Seq<TaggedStatement<Parsed>>,
    last: SwindleType,
    i: int,
)
    requires
        0 <= i < stmts.len() - 1,
        stmts[i].statement is Break || stmts[i].statement is Continue,
    ensures
        wt_stmts(env, scope, in_loop, stmts, last) is None,
    decreases stmts,
{
    let s = stmts[0].statement;
    match wt_statement(env, scope, in_loop, s) {
        Some((t0, env1, scope1)) => {
            if i > 0 && !(s is Break || s is Continue) {
                lemma_statement_after_jump_rejected(
                    env1,
                    scope1,
                    in_loop,
                    stmts.drop_first(),
                    t0,
                    i - 1,
                );
                assert(stmts.drop_first()[i - 1] == stmts[i]);
            }
        },
        None => {},
    }
}

/// The four ordering comparisons type-check only on two integers.
pub proof fn lemma_ordering_needs_integers(
    env: TypeEnv,
    in_loop: bool,
    op: CompOp<Parsed>,
    a1: Box<AddExp<Parsed>>,
    a2: Box<AddExp<Parsed>>,
)
    requires
        op is Leq || op is Lt || op is Gt || op is Geq,
        wt_compexp(env, in_loop, CompExp::Comp(op, a1, a2)) is Some,
    ensures
        wt_addexp(env, in_loop, *a1) == Some(SwindleType::Int),
        wt_addexp(env, in_loop, *a2) == Some(SwindleType::Int),
{
}

/// Equality and inequality type-check only when both sides have the same
/// static type, whatever that type is.
pub proof fn lemma_equality_needs_same_type(
    env: TypeEnv,
    in_loop: bool,
    op: CompOp<Parsed>,
    a1: Box<AddExp<Parsed>>,
    a2: Box<AddExp<Parsed>>,
)
    requires
        op is Eq || op is Neq,
        wt_compexp(env, in_loop, CompExp::Comp(op, a1, a2)) is Some,
    ensures
        wt_addexp(env, in_loop, *a1) is Some,
        wt_addexp(env, in_loop, *a1) == wt_addexp(env, in_loop, *a2),
{
}

} // verus!


