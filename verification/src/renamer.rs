use crate::ast::{
    AddExp, AndExp, Body, CompExp, Elif, Expression, IfExp, MulExp, OrExp, Primary, Program,
    Statement, Tag, TaggedStatement, Unary, WhileExp,
};
use crate::typechecker::{SwindleType, Typed};
use vstd::prelude::*;

verus! {

/// A dense identifier handed out by a monotone counter: slot ids here,
/// label and string-table ids in the bytecode compiler.
#[derive(Debug, Copy, Clone, PartialEq, Eq, Structural)]
pub struct UID(pub usize);

impl UID {
    /// The number this identifier stands for.
    pub open spec fn val(self) -> int {
        self.0 as int
    }

    pub fn new() -> (r: UID)
        ensures
            r.val() == 0,
    {
        UID(0)
    }

    /// Steps the counter to the next fresh identifier.
    pub fn inc(&mut self)
        requires
            old(self).val() < usize::MAX,
        ensures
            final(self).val() == old(self).val() + 1,
    {
        self.0 = self.0 + 1;
    }

    pub fn get_value(&self) -> (r: usize)
        ensures
            r as int == self.val(),
    {
        self.0
    }
}

/// The scope resolver's phase: variables are dense slot indices; every
/// other payload is as the type checker left it.
pub struct Renamed {}

impl Tag for Renamed {
    type TypeTag = SwindleType;

    type StatementTag = SwindleType;

    type DeclareTag = SwindleType;

    type VariableID = UID;

    type StringID = String;
}

/// The resolver's table: the visible bindings from name to slot, and the
/// globally shared counter of slots handed out so far. The counter is
/// never copied back down, so a fresh declaration always receives the
/// next unused slot id, and slots are not reused across sibling blocks.
struct NameTable {
    next_id: UID,
    table: Vec<(String, UID)>,
}

impl NameTable {
    fn new() -> (r: NameTable)
        ensures
            r.next_id.val() == 0,
            r.table@.len() == 0,
    {
        NameTable { next_id: UID::new(), table: Vec::new() }
    }

    /// Binds `name` to the next fresh slot and returns it; fails only
    /// when the slot counter would overflow.
    fn insert(&mut self, name: String) -> (r: Option<UID>)
        ensures
            match r {
                Some(id) => id.val() == old(self).next_id.val() && final(self).next_id.val()
                    == old(self).next_id.val() + 1,
                None => *final(self) == *old(self),
            },
    {
        if self.next_id.get_value() == usize::MAX {
            return None;
        }
        let id = self.next_id;
        self.table.push((name, id));
        self.next_id.inc();
        Some(id)
    }

    /// The slot bound to `name`, shadowing respected.
    fn get(&self, name: &String) -> (r: Option<UID>)
    {
        let mut i: usize = self.table.len();
        while i > 0
            invariant
                i <= self.table@.len(),
            decreases i,
        {
            i = i - 1;
            if self.table[i].0 == *name {
                return Some(self.table[i].1);
            }
        }
        None
    }

    /// A copy handed to a nested block: the bindings are shared by value,
    /// and only the counter comes back.
    fn clone_bindings(&self) -> (r: NameTable)
        ensures
            r.next_id == self.next_id,
    {
        let mut table: Vec<(String, UID)> = Vec::new();
        let mut i: usize = 0;
        while i < self.table.len()
            invariant
                i <= self.table@.len(),
            decreases self.table@.len() - i,
        {
            let name = self.table[i].0.clone();
            let id = self.table[i].1;
            table.push((name, id));
            i = i + 1;
        }
        NameTable { next_id: self.next_id, table }
    }
}

/// Replaces every variable name in a typed program by a dense slot index
/// and returns the total number of slots the machine must provide. Fails
/// only on a tree whose variables are not all in scope, which a program
/// that passed the type checker never contains, or if the slot counter
/// overflows.
pub fn rename_program(program: Program<Typed>) -> (r: Option<(Program<Renamed>, usize)>)
    ensures
        r matches Some(p) ==> p.0.statements@.len() == program.statements@.len(),
{
    let mut name_table = NameTable::new();
    let statements = match rename_stmts(&mut name_table, program.statements) {
        Some(v) => v,
        None => return None,
    };
    let count = name_table.next_id.get_value();
    Some((Program { statements }, count))
}

fn rename_stmts(name_table: &mut NameTable, stmts: Vec<TaggedStatement<Typed>>) -> (r: Option<
    Vec<TaggedStatement<Renamed>>,
>)
    ensures
        r is Some ==> final(name_table).next_id.val() >= old(name_table).next_id.val(),
        r matches Some(out) ==> out@.len() == stmts@.len(),
    decreases stmts@,
{
    let mut stmts = stmts;
    let ghost s0 = stmts@;
    if stmts.len() == 0 {
        return Some(Vec::new());
    }
    let ts = stmts.remove(0);
    proof {
        assert(stmts@ =~= s0.drop_first());
        assert(ts == s0[0]);
    }
    let st = match rename_statement(name_table, ts.statement) {
        Some(st) => st,
        None => return None,
    };
    let mut rest = match rename_stmts(name_table, stmts) {
        Some(v) => v,
        None => return None,
    };
    let mut out: Vec<TaggedStatement<Renamed>> = Vec::new();
    out.push(TaggedStatement::new(ts.tag, st));
    out.append(&mut rest);
    Some(out)
}

fn rename_statement(name_table: &mut NameTable, statement: Statement<Typed>) -> (r: Option<
    Statement<Renamed>,
>)
    ensures
        r is Some ==> final(name_table).next_id.val() >= old(name_table).next_id.val(),
    decreases statement,
{
    match statement {
        Statement::Declare(typ, varname, e1) => {
            // the initializer is resolved before the name becomes visible
            let te = match rename_expression(name_table, *e1) {
                Some(te) => te,
                None => return None,
            };
            let id = match name_table.insert(varname) {
                Some(id) => id,
                None => return None,
            };
            Some(Statement::Declare(typ, id, te))
        },
        Statement::Write(tag, newline, e1) => {
            match rename_expression(name_table, *e1) {
                Some(te) => Some(Statement::Write(tag, newline, te)),
                None => None,
            }
        },
        Statement::Break => Some(Statement::Break),
        Statement::Continue => Some(Statement::Continue),
        Statement::Expression(e1) => {
            match rename_expression(name_table, *e1) {
                Some(te) => Some(Statement::Expression(te)),
                None => None,
            }
        },
    }
}

fn rename_expression(name_table: &mut NameTable, expression: Expression<Typed>) -> (r: Option<
    Box<Expression<Renamed>>,
>)
    ensures
        r is Some ==> final(name_table).next_id.val() >= old(name_table).next_id.val(),
    decreases expression,
{
    match expression {
        Expression::Assign(tag, varname, e1) => {
            let id = match name_table.get(&varname) {
                Some(id) => id,
                None => return None,
            };
            match rename_expression(name_table, *e1) {
                Some(te) => Some(Box::new(Expression::Assign(tag, id, te))),
                None => None,
            }
        },
        Expression::OrExp(o) => {
            match rename_orexp(name_table, *o) {
                Some(to) => Some(Box::new(Expression::OrExp(to))),
                None => None,
            }
        },
    }
}

fn rename_orexp(name_table: &mut NameTable, orexp: OrExp<Typed>) -> (r: Option<Box<OrExp<Renamed>>>)
    ensures
        r is Some ==> final(name_table).next_id.val() >= old(name_table).next_id.val(),
    decreases orexp,
{
    match orexp {
        OrExp::Or(a, o) => {
            let ta = match rename_andexp(name_table, *a) {
                Some(t) => t,
                None => return None,
            };
            match rename_orexp(name_table, *o) {
                Some(to) => Some(Box::new(OrExp::Or(ta, to))),
                None => None,
            }
        },
        OrExp::AndExp(a) => {
            match rename_andexp(name_table, *a) {
                Some(ta) => Some(Box::new(OrExp::AndExp(ta))),
                None => None,
            }
        },
    }
}

fn rename_andexp(name_table: &mut NameTable, andexp: AndExp<Typed>) -> (r: Option<
    Box<AndExp<Renamed>>,
>)
    ensures
        r is Some ==> final(name_table).next_id.val() >= old(name_table).next_id.val(),
    decreases andexp,
{
    match andexp {
        AndExp::And(c, a) => {
            let tc = match rename_compexp(name_table, *c) {
                Some(t) => t,
                None => return None,
            };
            match rename_andexp(name_table, *a) {
                Some(ta) => Some(Box::new(AndExp::And(tc, ta))),
                None => None,
            }
        },
        AndExp::CompExp(c) => {
            match rename_compexp(name_table, *c) {
                Some(tc) => Some(Box::new(AndExp::CompExp(tc))),
                None => None,
            }
        },
    }
}

fn rename_compexp(name_table: &mut NameTable, compexp: CompExp<Typed>) -> (r: Option<
    Box<CompExp<Renamed>>,
>)
    ensures
        r is Some ==> final(name_table).next_id.val() >= old(name_table).next_id.val(),
    decreases compexp,
{
    match compexp {
        CompExp::Comp(op, a1, a2) => {
            let top = match op {
                crate::ast::CompOp::Leq => crate::ast::CompOp::Leq,
                crate::ast::CompOp::Lt => crate::ast::CompOp::Lt,
                crate::ast::CompOp::Eq(t) => crate::ast::CompOp::Eq(t),
                crate::ast::CompOp::Neq(t) => crate::ast::CompOp::Neq(t),
                crate::ast::CompOp::Gt => crate::ast::CompOp::Gt,
                crate::ast::CompOp::Geq => crate::ast::CompOp::Geq,
            };
            let t1 = match rename_addexp(name_table, *a1) {
                Some(t) => t,
                None => return None,
            };
            match rename_addexp(name_table, *a2) {
                Some(t2) => Some(Box::new(CompExp::Comp(top, t1, t2))),
                None => None,
            }
        },
        CompExp::AddExp(a) => {
            match rename_addexp(name_table, *a) {
                Some(ta) => Some(Box::new(CompExp::AddExp(ta))),
                None => None,
            }
        },
    }
}

fn rename_addexp(name_table: &mut NameTable, addexp: AddExp<Typed>) -> (r: Option<
    Box<AddExp<Renamed>>,
>)
    ensures
        r is Some ==> final(name_table).next_id.val() >= old(name_table).next_id.val(),
    decreases addexp,
{
    match addexp {
        AddExp::Add(op, m, a) => {
            let top = match op {
                crate::ast::AddOp::Sum(t) => crate::ast::AddOp::Sum(t),
                crate::ast::AddOp::Difference => crate::ast::AddOp::Difference,
            };
            let tm = match rename_mulexp(name_table, *m) {
                Some(t) => t,
                None => return None,
            };
            match rename_addexp(name_table, *a) {
                Some(ta) => Some(Box::new(AddExp::Add(top, tm, ta))),
                None => None,
            }
        },
        AddExp::MulExp(m) => {
            match rename_mulexp(name_table, *m) {
                Some(tm) => Some(Box::new(AddExp::MulExp(tm))),
                None => None,
            }
        },
    }
}

fn rename_mulexp(name_table: &mut NameTable, mulexp: MulExp<Typed>) -> (r: Option<
    Box<MulExp<Renamed>>,
>)
    ensures
        r is Some ==> final(name_table).next_id.val() >= old(name_table).next_id.val(),
    decreases mulexp,
{
    match mulexp {
        MulExp::Mul(op, u, m) => {
            let tu = match rename_unary(name_table, *u) {
                Some(t) => t,
                None => return None,
            };
            match rename_mulexp(name_table, *m) {
                Some(tm) => Some(Box::new(MulExp::Mul(op, tu, tm))),
                None => None,
            }
        },
        MulExp::Unary(u) => {
            match rename_unary(name_table, *u) {
                Some(tu) => Some(Box::new(MulExp::Unary(tu))),
                None => None,
            }
        },
    }
}

fn rename_unary(name_table: &mut NameTable, unary: Unary<Typed>) -> (r: Option<Box<Unary<Renamed>>>)
    ensures
        r is Some ==> final(name_table).next_id.val() >= old(name_table).next_id.val(),
    decreases unary,
{
    match unary {
        Unary::Negate(u) => {
            match rename_unary(name_table, *u) {
                Some(tu) => Some(Box::new(Unary::Negate(tu))),
                None => None,
            }
        },
        Unary::Not(u) => {
            match rename_unary(name_table, *u) {
                Some(tu) => Some(Box::new(Unary::Not(tu))),
                None => None,
            }
        },
        Unary::Primary(p) => {
            match rename_primary(name_table, *p) {
                Some(tp) => Some(Box::new(Unary::Primary(tp))),
                None => None,
            }
        },
    }
}

fn rename_primary(name_table: &mut NameTable, primary: Primary<Typed>) -> (r: Option<
    Box<Primary<Renamed>>,
>)
    ensures
        r is Some ==> final(name_table).next_id.val() >= old(name_table).next_id.val(),
    decreases primary,
{
    match primary {
        Primary::Paren(e1) => {
            match rename_expression(name_table, *e1) {
                Some(te) => Some(Box::new(Primary::Paren(te))),
                None => None,
            }
        },
        Primary::IntLit(n) => Some(Box::new(Primary::IntLit(n))),
        Primary::StringLit(s) => Some(Box::new(Primary::StringLit(s))),
        Primary::BoolLit(b) => Some(Box::new(Primary::BoolLit(b))),
        Primary::Variable(varname) => {
            match name_table.get(&varname) {
                Some(id) => Some(Box::new(Primary::Variable(id))),
                None => None,
            }
        },
        Primary::IfExp(ie) => {
            match rename_ifexp(name_table, ie) {
                Some(tie) => Some(Box::new(Primary::IfExp(tie))),
                None => None,
            }
        },
        Primary::WhileExp(we) => {
            match rename_whileexp(name_table, we) {
                Some(twe) => Some(Box::new(Primary::WhileExp(twe))),
                None => None,
            }
        },
        Primary::Unit => Some(Box::new(Primary::Unit)),
    }
}

fn rename_whileexp(name_table: &mut NameTable, whileexp: WhileExp<Typed>) -> (r: Option<
    WhileExp<Renamed>,
>)
    ensures
        r is Some ==> final(name_table).next_id.val() >= old(name_table).next_id.val(),
    decreases whileexp,
{
    let WhileExp { tag, cond, body } = whileexp;
    let tcond = match rename_expression(name_table, *cond) {
        Some(t) => t,
        None => return None,
    };
    match rename_body(name_table, body) {
        Some(tbody) => Some(WhileExp { tag, cond: tcond, body: tbody }),
        None => None,
    }
}

fn rename_ifexp(name_table: &mut NameTable, ifexp: IfExp<Typed>) -> (r: Option<IfExp<Renamed>>)
    ensures
        r is Some ==> final(name_table).next_id.val() >= old(name_table).next_id.val(),
    decreases ifexp,
{
    let IfExp { tag, cond, body, elifs, els } = ifexp;
    let tcond = match rename_expression(name_table, *cond) {
        Some(t) => t,
        None => return None,
    };
    let tbody = match rename_body(name_table, body) {
        Some(t) => t,
        None => return None,
    };
    let telifs = match rename_elifs(name_table, elifs) {
        Some(v) => v,
        None => return None,
    };
    match rename_body(name_table, els) {
        Some(tels) => Some(IfExp { tag, cond: tcond, body: tbody, elifs: telifs, els: tels }),
        None => None,
    }
}

fn rename_elifs(name_table: &mut NameTable, elifs: Vec<Elif<Typed>>) -> (r: Option<
    Vec<Elif<Renamed>>,
>)
    ensures
        r is Some ==> final(name_table).next_id.val() >= old(name_table).next_id.val(),
    decreases elifs@,
{
    let mut elifs = elifs;
    let ghost s0 = elifs@;
    if elifs.len() == 0 {
        return Some(Vec::new());
    }
    let first = elifs.remove(0);
    proof {
        assert(elifs@ =~= s0.drop_first());
        assert(first == s0[0]);
    }
    let te = match rename_elif(name_table, first) {
        Some(t) => t,
        None => return None,
    };
    let mut rest = match rename_elifs(name_table, elifs) {
        Some(v) => v,
        None => return None,
    };
    let mut out: Vec<Elif<Renamed>> = Vec::new();
    out.push(te);
    out.append(&mut rest);
    Some(out)
}

fn rename_elif(name_table: &mut NameTable, elif: Elif<Typed>) -> (r: Option<Elif<Renamed>>)
    ensures
        r is Some ==> final(name_table).next_id.val() >= old(name_table).next_id.val(),
    decreases elif,
{
    let Elif { cond, body } = elif;
    let tcond = match rename_expression(name_table, *cond) {
        Some(t) => t,
        None => return None,
    };
    match rename_body(name_table, body) {
        Some(tbody) => Some(Elif { cond: tcond, body: tbody }),
        None => None,
    }
}

/// A nested block sees a copy of the bindings, so its declarations stay
/// local; only the slot counter is carried back, keeping every slot id
/// globally unique.
fn rename_body(name_table: &mut NameTable, body: Body<Typed>) -> (r: Option<Body<Renamed>>)
    ensures
        r is Some ==> final(name_table).next_id.val() >= old(name_table).next_id.val(),
        final(name_table).table@ == old(name_table).table@,
    decreases body,
{
    let mut inner = name_table.clone_bindings();
    let statements = match rename_stmts(&mut inner, body.statements) {
        Some(v) => v,
        None => return None,
    };
    name_table.next_id = inner.next_id;
    Some(Body { statements })
}

} // verus!
