use crate::ast::{
    AddExp, AddOp, AndExp, Body, CompExp, CompOp, Elif, Expression, IfExp, MulExp, MulOp, OrExp,
    Primary, Program, Statement, Tag, TaggedStatement, Unary, WhileExp,
};
use crate::renamer::Renamed;
use crate::typechecker::SwindleType;
use vstd::prelude::*;

verus! {

/// One instruction of the stack machine. Jump targets are label ids,
/// resolved to offsets in a prepass before execution; `Label` itself is a
/// no-op marker. String equality and concatenation have their own
/// instructions because the machine does not dispatch on a runtime type
/// tag for those two operations.
#[derive(Debug, Copy, Clone, PartialEq, Eq, Structural)]
pub enum ByteCodeOp {
    IntConst(i64),
    StringConst(usize),
    BoolConst(bool),
    Variable(usize),
    Unit,
    Pop,
    Negate,
    Not,
    Product,
    Quotient,
    Remainder,
    Sum,
    Difference,
    Leq,
    Lt,
    Eq,
    Gt,
    Geq,
    StringEq,
    And,
    Or,
    Append,
    Assign(usize),
    Declare(usize),
    Write,
    Writeln,
    Label(usize),
    JumpIfFalse(usize),
    Jump(usize),
}

/// The contents of a string table, as plain character sequences.
pub open spec fn string_views(ss: Seq<String>) -> Seq<Seq<char>> {
    Seq::new(ss.len(), |i: int| ss[i]@)
}

/// What the compiler's threaded state denotes: the string-constant
/// table's contents, the next fresh label id, and the innermost
/// enclosing loop's (break, continue) label pair.
#[verifier::ext_equal]
pub struct CgModel {
    pub strings: Seq<Seq<char>>,
    pub next_label: usize,
    pub loop_labels: Option<(usize, usize)>,
}

/// The index of the first table entry with this content, if any.
pub open spec fn find_string(strings: Seq<Seq<char>>, s: Seq<char>) -> Option<int>
    decreases strings.len(),
{
    if strings.len() == 0 {
        None
    } else if strings[0] == s {
        Some(0)
    } else {
        match find_string(strings.drop_first(), s) {
            Some(k) => Some(k + 1),
            None => None,
        }
    }
}

proof fn lemma_find_string_at(strings: Seq<Seq<char>>, i: int)
    requires
        0 <= i < strings.len(),
        forall|k: int| 0 <= k < i ==> strings[k] != strings[i],
    ensures
        find_string(strings, strings[i]) == Some(i),
    decreases strings.len(),
{
    if i > 0 {
        lemma_find_string_at(strings.drop_first(), i - 1);
        assert(strings.drop_first()[i - 1] == strings[i]);
    }
}

proof fn lemma_find_string_none(strings: Seq<Seq<char>>, s: Seq<char>)
    requires
        forall|k: int| 0 <= k < strings.len() ==> strings[k] != s,
    ensures
        find_string(strings, s) is None,
    decreases strings.len(),
{
    if strings.len() > 0 {
        lemma_find_string_none(strings.drop_first(), s);
    }
}

/// The compiler as one spec function per grammar level: the exact
/// instruction sequence a construct compiles to and the state it leaves,
/// or nothing when the label counter would overflow. The executable
/// compiler returns exactly what these say.
pub open spec fn sbyte_statement(m: CgModel, s: Statement<Renamed>) -> Option<
    (Seq<ByteCodeOp>, CgModel),
>
    decreases s,
{
    match s {
        Statement::Declare(_, uid, e1) => match sbyte_expression(m, *e1) {
            Some((code, m1)) => Some(
                (code + seq![ByteCodeOp::Declare(uid.0), ByteCodeOp::Unit], m1),
            ),
            None => None,
        },
        Statement::Write(_, newline, e1) => match sbyte_expression(m, *e1) {
            Some((code, m1)) => Some(
                (
                    code + seq![
                        if newline {
                            ByteCodeOp::Writeln
                        } else {
                            ByteCodeOp::Write
                        },
                        ByteCodeOp::Unit,
                    ],
                    m1,
                ),
            ),
            None => None,
        },
        Statement::Break => match m.loop_labels {
            Some((break_label, _)) => Some((seq![ByteCodeOp::Jump(break_label)], m)),
            None => if m.next_label == usize::MAX {
                None
            } else {
                Some(
                    (
                        seq![ByteCodeOp::Jump(m.next_label)],
                        CgModel { next_label: (m.next_label + 1) as usize, ..m },
                    ),
                )
            },
        },
        Statement::Continue => match m.loop_labels {
            Some((_, continue_label)) => Some((seq![ByteCodeOp::Jump(continue_label)], m)),
            None => if m.next_label == usize::MAX {
                None
            } else {
                Some(
                    (
                        seq![ByteCodeOp::Jump(m.next_label)],
                        CgModel { next_label: (m.next_label + 1) as usize, ..m },
                    ),
                )
            },
        },
        Statement::Expression(e1) => sbyte_expression(m, *e1),
    }
}

pub open spec fn sbyte_expression(m: CgModel, e: Expression<Renamed>) -> Option<
    (Seq<ByteCodeOp>, CgModel),
>
    decreases e,
{
    match e {
        Expression::Assign(_, uid, e1) => match sbyte_expression(m, *e1) {
            Some((code, m1)) => Some((code + seq![ByteCodeOp::Assign(uid.0)], m1)),
            None => None,
        },
        Expression::OrExp(o) => sbyte_orexp(m, *o),
    }
}

/// For every binary operator the right operand's code is emitted first,
/// the left operand's second; the machine pops the left operand first.
pub open spec fn sbyte_orexp(m: CgModel, e: OrExp<Renamed>) -> Option<(Seq<ByteCodeOp>, CgModel)>
    decreases e,
{
    match e {
        OrExp::Or(a, o) => match sbyte_orexp(m, *o) {
            Some((rc, m1)) => match sbyte_andexp(m1, *a) {
                Some((lc, m2)) => Some((rc + lc + seq![ByteCodeOp::Or], m2)),
                None => None,
            },
            None => None,
        },
        OrExp::AndExp(a) => sbyte_andexp(m, *a),
    }
}

pub open spec fn sbyte_andexp(m: CgModel, e: AndExp<Renamed>) -> Option<(Seq<ByteCodeOp>, CgModel)>
    decreases e,
{
    match e {
        AndExp::And(c, a) => match sbyte_andexp(m, *a) {
            Some((rc, m1)) => match sbyte_compexp(m1, *c) {
                Some((lc, m2)) => Some((rc + lc + seq![ByteCodeOp::And], m2)),
                None => None,
            },
            None => None,
        },
        AndExp::CompExp(c) => sbyte_compexp(m, *c),
    }
}

/// Equality on statically string-typed operands is the string-specific
/// comparison; inequality is the comparison followed by `Not`.
pub open spec fn sbyte_compexp(m: CgModel, e: CompExp<Renamed>) -> Option<
    (Seq<ByteCodeOp>, CgModel),
>
    decreases e,
{
    match e {
        CompExp::Comp(op, a1, a2) => match sbyte_addexp(m, *a2) {
            Some((rc, m1)) => match sbyte_addexp(m1, *a1) {
                Some((lc, m2)) => {
                    let tail = match op {
                        CompOp::Leq => seq![ByteCodeOp::Leq],
                        CompOp::Lt => seq![ByteCodeOp::Lt],
                        CompOp::Eq(t) => if t == SwindleType::String {
                            seq![ByteCodeOp::StringEq]
                        } else {
                            seq![ByteCodeOp::Eq]
                        },
                        CompOp::Neq(t) => if t == SwindleType::String {
                            seq![ByteCodeOp::StringEq, ByteCodeOp::Not]
                        } else {
                            seq![ByteCodeOp::Eq, ByteCodeOp::Not]
                        },
                        CompOp::Gt => seq![ByteCodeOp::Gt],
                        CompOp::Geq => seq![ByteCodeOp::Geq],
                    };
                    Some((rc + lc + tail, m2))
                },
                None => None,
            },
            None => None,
        },
        CompExp::AddExp(a) => sbyte_addexp(m, *a),
    }
}

/// `+` on statically string-typed operands is the string append; on
/// integers, the integer sum.
pub open spec fn sbyte_addexp(m: CgModel, e: AddExp<Renamed>) -> Option<(Seq<ByteCodeOp>, CgModel)>
    decreases e,
{
    match e {
        AddExp::Add(op, mu, a) => match sbyte_addexp(m, *a) {
            Some((rc, m1)) => match sbyte_mulexp(m1, *mu) {
                Some((lc, m2)) => {
                    let tail = match op {
                        AddOp::Sum(t) => if t == SwindleType::String {
                            seq![ByteCodeOp::Append]
                        } else {
                            seq![ByteCodeOp::Sum]
                        },
                        AddOp::Difference => seq![ByteCodeOp::Difference],
                    };
                    Some((rc + lc + tail, m2))
                },
                None => None,
            },
            None => None,
        },
        AddExp::MulExp(mu) => sbyte_mulexp(m, *mu),
    }
}

pub open spec fn sbyte_mulexp(m: CgModel, e: MulExp<Renamed>) -> Option<(Seq<ByteCodeOp>, CgModel)>
    decreases e,
{
    match e {
        MulExp::Mul(op, u, mm) => match sbyte_mulexp(m, *mm) {
            Some((rc, m1)) => match sbyte_unary(m1, *u) {
                Some((lc, m2)) => {
                    let tail = match op {
                        MulOp::Product => seq![ByteCodeOp::Product],
                        MulOp::Quotient => seq![ByteCodeOp::Quotient],
                        MulOp::Remainder => seq![ByteCodeOp::Remainder],
                    };
                    Some((rc + lc + tail, m2))
                },
                None => None,
            },
            None => None,
        },
        MulExp::Unary(u) => sbyte_unary(m, *u),
    }
}

pub open spec fn sbyte_unary(m: CgModel, e: Unary<Renamed>) -> Option<(Seq<ByteCodeOp>, CgModel)>
    decreases e,
{
    match e {
        Unary::Negate(u) => match sbyte_unary(m, *u) {
            Some((code, m1)) => Some((code + seq![ByteCodeOp::Negate], m1)),
            None => None,
        },
        Unary::Not(u) => match sbyte_unary(m, *u) {
            Some((code, m1)) => Some((code + seq![ByteCodeOp::Not], m1)),
            None => None,
        },
        Unary::Primary(p) => sbyte_primary(m, *p),
    }
}

/// A string literal compiles to the id of its (deduplicated) table entry.
pub open spec fn sbyte_primary(m: CgModel, e: Primary<Renamed>) -> Option<
    (Seq<ByteCodeOp>, CgModel),
>
    decreases e,
{
    match e {
        Primary::Paren(e1) => sbyte_expression(m, *e1),
        Primary::IntLit(n) => Some((seq![ByteCodeOp::IntConst(n)], m)),
        Primary::StringLit(s) => match find_string(m.strings, s@) {
            Some(k) => Some((seq![ByteCodeOp::StringConst(k as usize)], m)),
            None => Some(
                (
                    seq![ByteCodeOp::StringConst(m.strings.len() as usize)],
                    CgModel { strings: m.strings.push(s@), ..m },
                ),
            ),
        },
        Primary::BoolLit(b) => Some((seq![ByteCodeOp::BoolConst(b)], m)),
        Primary::Variable(uid) => Some((seq![ByteCodeOp::Variable(uid.0)], m)),
        Primary::IfExp(ie) => sbyte_ifexp(m, ie),
        Primary::WhileExp(we) => sbyte_whileexp(m, we),
        Primary::Unit => Some((seq![ByteCodeOp::Unit], m)),
    }
}

/// A loop: condition at the start label, conditional exit to the end
/// label, the body's value discarded each iteration, unit as the loop's
/// own value; the body is compiled with this loop's (end, start) pair as
/// the break/continue targets, and the enclosing pair restored after.
pub open spec fn sbyte_whileexp(m: CgModel, we: WhileExp<Renamed>) -> Option<
    (Seq<ByteCodeOp>, CgModel),
>
    decreases we,
{
    if m.next_label == usize::MAX {
        None
    } else {
        let start_label = m.next_label;
        let m1 = CgModel { next_label: (m.next_label + 1) as usize, ..m };
        if m1.next_label == usize::MAX {
            None
        } else {
            let end_label = m1.next_label;
            let m2 = CgModel {
                next_label: (m1.next_label + 1) as usize,
                loop_labels: Some((end_label, start_label)),
                ..m1
            };
            match sbyte_expression(m2, *we.cond) {
                Some((cc, m3)) => match sbyte_body(m3, we.body) {
                    Some((bc, m4)) => Some(
                        (
                            seq![ByteCodeOp::Label(start_label)] + cc + seq![
                                ByteCodeOp::JumpIfFalse(end_label),
                            ] + bc + seq![
                                ByteCodeOp::Pop,
                                ByteCodeOp::Jump(start_label),
                                ByteCodeOp::Label(end_label),
                                ByteCodeOp::Unit,
                            ],
                            CgModel { loop_labels: m.loop_labels, ..m4 },
                        ),
                    ),
                    None => None,
                },
                None => None,
            }
        }
    }
}

/// An `if`: each arm's condition skips to the next arm's label when
/// false; every arm jumps to the shared end label after its value.
pub open spec fn sbyte_ifexp(m: CgModel, ie: IfExp<Renamed>) -> Option<(Seq<ByteCodeOp>, CgModel)>
    decreases ie,
{
    if m.next_label == usize::MAX {
        None
    } else {
        let end_label = m.next_label;
        let m1 = CgModel { next_label: (m.next_label + 1) as usize, ..m };
        if m1.next_label == usize::MAX {
            None
        } else {
            let label = m1.next_label;
            let m2 = CgModel { next_label: (m1.next_label + 1) as usize, ..m1 };
            match sbyte_expression(m2, *ie.cond) {
                Some((cc, m3)) => match sbyte_body(m3, ie.body) {
                    Some((bc, m4)) => match sbyte_elifs(end_label, m4, ie.elifs@) {
                        Some((ec, m5)) => match sbyte_body(m5, ie.els) {
                            Some((xc, m6)) => Some(
                                (
                                    cc + seq![ByteCodeOp::JumpIfFalse(label)] + bc + seq![
                                        ByteCodeOp::Jump(end_label),
                                        ByteCodeOp::Label(label),
                                    ] + ec + xc + seq![ByteCodeOp::Label(end_label)],
                                    m6,
                                ),
                            ),
                            None => None,
                        },
                        None => None,
                    },
                    None => None,
                },
                None => None,
            }
        }
    }
}

pub open spec fn sbyte_elifs(end_label: usize, m: CgModel, elifs: Seq<Elif<Renamed>>) -> Option<
    (Seq<ByteCodeOp>, CgModel),
>
    decreases elifs,
{
    if elifs.len() == 0 {
        Some((Seq::empty(), m))
    } else {
        match sbyte_elif(end_label, m, elifs[0]) {
            Some((code, m1)) => match sbyte_elifs(end_label, m1, elifs.drop_first()) {
                Some((rest, m2)) => Some((code + rest, m2)),
                None => None,
            },
            None => None,
        }
    }
}

pub open spec fn sbyte_elif(end_label: usize, m: CgModel, e: Elif<Renamed>) -> Option<
    (Seq<ByteCodeOp>, CgModel),
>
    decreases e,
{
    if m.next_label == usize::MAX {
        None
    } else {
        let label = m.next_label;
        let m1 = CgModel { next_label: (m.next_label + 1) as usize, ..m };
        match sbyte_expression(m1, *e.cond) {
            Some((cc, m2)) => match sbyte_body(m2, e.body) {
                Some((bc, m3)) => Some(
                    (
                        cc + seq![ByteCodeOp::JumpIfFalse(label)] + bc + seq![
                            ByteCodeOp::Jump(end_label),
                            ByteCodeOp::Label(label),
                        ],
                        m3,
                    ),
                ),
                None => None,
            },
            None => None,
        }
    }
}

/// A block: each statement's code followed by a `Pop` discarding its
/// value, except the last statement, whose value is the block's own; an
/// empty block pushes unit instead.
pub open spec fn sbyte_body(m: CgModel, b: Body<Renamed>) -> Option<(Seq<ByteCodeOp>, CgModel)>
    decreases b,
{
    if b.statements@.len() == 0 {
        Some((seq![ByteCodeOp::Unit], m))
    } else {
        sbyte_stmts(m, b.statements@)
    }
}

pub open spec fn sbyte_stmts(m: CgModel, stmts: Seq<TaggedStatement<Renamed>>) -> Option<
    (Seq<ByteCodeOp>, CgModel),
>
    decreases stmts,
{
    if stmts.len() == 0 {
        Some((Seq::empty(), m))
    } else {
        match sbyte_statement(m, stmts[0].statement) {
            Some((code, m1)) => if stmts.len() == 1 {
                Some((code, m1))
            } else {
                match sbyte_stmts(m1, stmts.drop_first()) {
                    Some((rest, m2)) => Some((code + seq![ByteCodeOp::Pop] + rest, m2)),
                    None => None,
                }
            },
            None => None,
        }
    }
}

/// A whole program: each top-level statement's code followed by a `Pop`.
pub open spec fn sbyte_prog_stmts(m: CgModel, stmts: Seq<TaggedStatement<Renamed>>) -> Option<
    (Seq<ByteCodeOp>, CgModel),
>
    decreases stmts,
{
    if stmts.len() == 0 {
        Some((Seq::empty(), m))
    } else {
        match sbyte_statement(m, stmts[0].statement) {
            Some((code, m1)) => match sbyte_prog_stmts(m1, stmts.drop_first()) {
                Some((rest, m2)) => Some((code + seq![ByteCodeOp::Pop] + rest, m2)),
                None => None,
            },
            None => None,
        }
    }
}

/// The state the compiler starts from: an empty table, label zero, and
/// no enclosing loop.
pub open spec fn cg_init() -> CgModel {
    CgModel { strings: Seq::empty(), next_label: 0, loop_labels: None }
}

/// The compiler's threaded state: the deduplicated string-constant
/// table, the label counter, and the innermost enclosing loop's
/// (break, continue) label pair, saved and restored around nested loops.
struct CodeGenState {
    strings: Vec<String>,
    next_label: usize,
    loop_labels: Option<(usize, usize)>,
}

impl CodeGenState {
    /// What this state denotes.
    closed spec fn model(self) -> CgModel {
        CgModel {
            strings: string_views(self.strings@),
            next_label: self.next_label,
            loop_labels: self.loop_labels,
        }
    }

    fn new() -> (r: CodeGenState)
        ensures
            r.model() =~= cg_init(),
    {
        CodeGenState { strings: Vec::new(), next_label: 0, loop_labels: None }
    }

    /// The table id for a literal: the first existing entry with this
    /// content when there is one (and then the table is unchanged), else
    /// a fresh entry at the end.
    fn lookup_string(&mut self, string: String) -> (id: usize)
        ensures
            final(self).model().next_label == old(self).model().next_label,
            final(self).model().loop_labels == old(self).model().loop_labels,
            match find_string(old(self).model().strings, string@) {
                Some(k) => id == k && final(self).model().strings == old(self).model().strings,
                None => id == old(self).model().strings.len() && final(self).model().strings
                    =~= old(self).model().strings.push(string@),
            },
    {
        let mut i: usize = 0;
        while i < self.strings.len()
            invariant
                i <= self.strings@.len(),
                forall|k: int| 0 <= k < i ==> string_views(self.strings@)[k] != string@,
            decreases self.strings@.len() - i,
        {
            if self.strings[i] == string {
                proof {
                    lemma_find_string_at(string_views(self.strings@), i as int);
                }
                return i;
            }
            i = i + 1;
        }
        proof {
            lemma_find_string_none(string_views(self.strings@), string@);
        }
        let id = self.strings.len();
        let ghost before = string_views(self.strings@);
        self.strings.push(string);
        proof {
            assert(string_views(self.strings@) =~= before.push(string@));
        }
        id
    }

    /// The next fresh label id; nothing exactly when the counter is at
    /// its ceiling.
    fn get_label(&mut self) -> (r: Option<usize>)
        ensures
            match r {
                Some(l) => l == old(self).model().next_label && old(self).model().next_label
                    < usize::MAX && final(self).model() =~= (CgModel {
                    next_label: (old(self).model().next_label + 1) as usize,
                    ..old(self).model()
                }),
                None => *final(self) == *old(self) && old(self).model().next_label == usize::MAX,
            },
    {
        if self.next_label == usize::MAX {
            return None;
        }
        let l = self.next_label;
        self.next_label = self.next_label + 1;
        Some(l)
    }
}

/// Compiles a slot-resolved, typed program into exactly the instruction
/// sequence `sbyte_prog_stmts` gives from the initial state — each
/// statement's code followed by the `Pop` discarding its value — with
/// the deduplicated string table and the label and string counts the
/// machine needs. Fails exactly when the spec does: a label-counter
/// overflow.
pub fn byte_program(program: Program<Renamed>) -> (r: Option<
    (Vec<ByteCodeOp>, Vec<String>, usize, usize),
>)
    ensures
        match sbyte_prog_stmts(cg_init(), program.statements@) {
            Some(p) => r matches Some(q) && q.0@ == p.0 && string_views(q.1@) == p.1.strings
                && q.2 == p.1.next_label && q.3 == p.1.strings.len(),
            None => r is None,
        },
{
    let mut state = CodeGenState::new();
    let bytecode = match byte_prog_stmts(&mut state, program.statements) {
        Some(code) => code,
        None => return None,
    };
    let num_labels = state.next_label;
    let num_strings = state.strings.len();
    Some((bytecode, state.strings, num_labels, num_strings))
}

#[verifier::rlimit(80)]
fn byte_prog_stmts(state: &mut CodeGenState, stmts: Vec<TaggedStatement<Renamed>>) -> (r: Option<
    Vec<ByteCodeOp>,
>)
    ensures
        match sbyte_prog_stmts(old(state).model(), stmts@) {
            Some(p) => r matches Some(code) && code@ == p.0 && final(state).model() == p.1,
            None => r is None,
        },
    decreases stmts@, 0int,
{
    let mut stmts = stmts;
    let ghost s0 = stmts@;
    if stmts.len() == 0 {
        return Some(Vec::new());
    }
    let ts = stmts.remove(0);
    proof {
        assert(stmts@ =~= s0.drop_first());
        assert(ts == s0[0]);
    }
    let mut bc = match byte_statement(state, ts.statement) {
        Some(c) => c,
        None => return None,
    };
    let ghost c0 = bc@;
    bc.push(ByteCodeOp::Pop);
    let mut rest = match byte_prog_stmts(state, stmts) {
        Some(c) => c,
        None => return None,
    };
    let ghost r0 = rest@;
    bc.append(&mut rest);
    proof {
        assert(bc@ =~= c0 + seq![ByteCodeOp::Pop] + r0);
    }
    Some(bc)
}

#[verifier::rlimit(80)]
fn byte_statement(state: &mut CodeGenState, statement: Statement<Renamed>) -> (r: Option<
    Vec<ByteCodeOp>,
>)
    ensures
        match sbyte_statement(old(state).model(), statement) {
            Some(p) => r matches Some(code) && code@ == p.0 && final(state).model() == p.1,
            None => r is None,
        },
    decreases statement, 0int,
{
    match statement {
        Statement::Declare(_, uid, e1) => byte_declare(state, uid, *e1),
        Statement::Write(_, newline, e1) => byte_write(state, newline, *e1),
        Statement::Break => byte_jump_out(state, true),
        Statement::Continue => byte_jump_out(state, false),
        Statement::Expression(e1) => byte_expression(state, *e1),
    }
}

#[verifier::rlimit(80)]
fn byte_declare(state: &mut CodeGenState, uid: crate::renamer::UID, e1: Expression<Renamed>) -> (r:
    Option<Vec<ByteCodeOp>>)
    ensures
        match sbyte_expression(old(state).model(), e1) {
            Some(p) => r matches Some(code) && code@ == p.0 + seq![
                ByteCodeOp::Declare(uid.0),
                ByteCodeOp::Unit,
            ] && final(state).model() == p.1,
            None => r is None,
        },
    decreases e1, 1int,
{
    let mut bc = match byte_expression(state, e1) {
        Some(c) => c,
        None => return None,
    };
    let ghost c0 = bc@;
    bc.push(ByteCodeOp::Declare(uid.get_value()));
    // every statement leaves one value; declarations leave unit
    bc.push(ByteCodeOp::Unit);
    proof {
        assert(bc@ =~= c0 + seq![ByteCodeOp::Declare(uid.0), ByteCodeOp::Unit]);
    }
    Some(bc)
}

#[verifier::rlimit(80)]
fn byte_write(state: &mut CodeGenState, newline: bool, e1: Expression<Renamed>) -> (r: Option<
    Vec<ByteCodeOp>,
>)
    ensures
        match sbyte_expression(old(state).model(), e1) {
            Some(p) => r matches Some(code) && code@ == p.0 + seq![
                if newline {
                    ByteCodeOp::Writeln
                } else {
                    ByteCodeOp::Write
                },
                ByteCodeOp::Unit,
            ] && final(state).model() == p.1,
            None => r is None,
        },
    decreases e1, 1int,
{
    let mut bc = match byte_expression(state, e1) {
        Some(c) => c,
        None => return None,
    };
    let ghost c0 = bc@;
    let ghost w = if newline {
        ByteCodeOp::Writeln
    } else {
        ByteCodeOp::Write
    };
    if newline {
        bc.push(ByteCodeOp::Writeln);
    } else {
        bc.push(ByteCodeOp::Write);
    }
    bc.push(ByteCodeOp::Unit);
    proof {
        assert(bc@ =~= c0 + seq![w, ByteCodeOp::Unit]);
    }
    Some(bc)
}

/// A `break` or `continue`: an unconditional jump to the enclosing
/// loop's end or start label. Outside any loop — unreachable for a
/// type-checked tree — the jump goes to a fresh label that is never
/// defined, so the machine aborts rather than running past it.
#[verifier::rlimit(80)]
fn byte_jump_out(state: &mut CodeGenState, is_break: bool) -> (r: Option<Vec<ByteCodeOp>>)
    ensures
        match old(state).model().loop_labels {
            Some(pair) => r matches Some(code) && code@ == seq![
                ByteCodeOp::Jump(
                    if is_break {
                        pair.0
                    } else {
                        pair.1
                    },
                ),
            ] && final(state).model() == old(state).model(),
            None => if old(state).model().next_label == usize::MAX {
                r is None
            } else {
                r matches Some(code) && code@ == seq![
                    ByteCodeOp::Jump(old(state).model().next_label),
                ] && final(state).model() == (CgModel {
                    next_label: (old(state).model().next_label + 1) as usize,
                    ..old(state).model()
                })
            },
        },
{
    let mut bc: Vec<ByteCodeOp> = Vec::new();
    match state.loop_labels {
        Some((break_label, continue_label)) => {
            if is_break {
                bc.push(ByteCodeOp::Jump(break_label));
                proof {
                    assert(bc@ =~= seq![ByteCodeOp::Jump(break_label)]);
                }
            } else {
                bc.push(ByteCodeOp::Jump(continue_label));
                proof {
                    assert(bc@ =~= seq![ByteCodeOp::Jump(continue_label)]);
                }
            }
        },
        None => {
            let l = match state.get_label() {
                Some(l) => l,
                None => return None,
            };
            bc.push(ByteCodeOp::Jump(l));
            proof {
                assert(bc@ =~= seq![ByteCodeOp::Jump(l)]);
            }
        },
    }
    Some(bc)
}

#[verifier::rlimit(80)]
fn byte_expression(state: &mut CodeGenState, expression: Expression<Renamed>) -> (r: Option<
    Vec<ByteCodeOp>,
>)
    ensures
        match sbyte_expression(old(state).model(), expression) {
            Some(p) => r matches Some(code) && code@ == p.0 && final(state).model() == p.1,
            None => r is None,
        },
    decreases expression, 0int,
{
    match expression {
        Expression::Assign(_, uid, e1) => {
            let mut bc = match byte_expression(state, *e1) {
                Some(c) => c,
                None => return None,
            };
            let ghost c0 = bc@;
            bc.push(ByteCodeOp::Assign(uid.get_value()));
            proof {
                assert(bc@ =~= c0 + seq![ByteCodeOp::Assign(uid.0)]);
            }
            Some(bc)
        },
        Expression::OrExp(o) => byte_orexp(state, *o),
    }
}

#[verifier::rlimit(30)]
fn byte_whileexp(state: &mut CodeGenState, whileexp: WhileExp<Renamed>) -> (r: Option<
    Vec<ByteCodeOp>,
>)
    ensures
        match sbyte_whileexp(old(state).model(), whileexp) {
            Some(p) => r matches Some(code) && code@ == p.0 && final(state).model() == p.1,
            None => r is None,
        },
    decreases whileexp, 0int,
{
    let ghost we = whileexp;
    let WhileExp { tag: _, cond, body } = whileexp;
    let old_labels = state.loop_labels;
    let start_label = match state.get_label() {
        Some(l) => l,
        None => return None,
    };
    let end_label = match state.get_label() {
        Some(l) => l,
        None => return None,
    };
    state.loop_labels = Some((end_label, start_label));
    proof {
        let m0 = old(state).model();
        let m1 = CgModel { next_label: (m0.next_label + 1) as usize, ..m0 };
        assert(start_label == m0.next_label);
        assert(end_label == m1.next_label);
        assert(state.model() =~= (CgModel {
            next_label: (m1.next_label + 1) as usize,
            loop_labels: Some((end_label, start_label)),
            ..m1
        }));
    }
    let mut bc: Vec<ByteCodeOp> = Vec::new();
    bc.push(ByteCodeOp::Label(start_label));
    let mut cond_code = match byte_expression(state, *cond) {
        Some(c) => c,
        None => return None,
    };
    let ghost cc0 = cond_code@;
    bc.append(&mut cond_code);
    bc.push(ByteCodeOp::JumpIfFalse(end_label));
    let mut body_code = match byte_body(state, body) {
        Some(c) => c,
        None => return None,
    };
    let ghost bb0 = body_code@;
    let ghost m4 = state.model();
    bc.append(&mut body_code);
    bc.push(ByteCodeOp::Pop);
    bc.push(ByteCodeOp::Jump(start_label));
    bc.push(ByteCodeOp::Label(end_label));
    bc.push(ByteCodeOp::Unit);
    state.loop_labels = old_labels;
    proof {
        assert(bc@ =~= seq![ByteCodeOp::Label(start_label)] + cc0 + seq![
            ByteCodeOp::JumpIfFalse(end_label),
        ] + bb0 + seq![
            ByteCodeOp::Pop,
            ByteCodeOp::Jump(start_label),
            ByteCodeOp::Label(end_label),
            ByteCodeOp::Unit,
        ]);
        assert(state.model() =~= (CgModel { loop_labels: old(state).model().loop_labels, ..m4 }));
    }
    Some(bc)
}

#[verifier::rlimit(100)]
#[verifier::spinoff_prover]
fn byte_ifexp(state: &mut CodeGenState, ifexp: IfExp<Renamed>) -> (r: Option<Vec<ByteCodeOp>>)
    ensures
        match sbyte_ifexp(old(state).model(), ifexp) {
            Some(p) => r matches Some(code) && code@ == p.0 && final(state).model() == p.1,
            None => r is None,
        },
    decreases ifexp, 0int,
{
    let ghost ie = ifexp;
    let IfExp { tag: _, cond, body, elifs, els } = ifexp;
    let end_label = match state.get_label() {
        Some(l) => l,
        None => return None,
    };
    let label = match state.get_label() {
        Some(l) => l,
        None => return None,
    };
    proof {
        let m0 = old(state).model();
        let m1 = CgModel { next_label: (m0.next_label + 1) as usize, ..m0 };
        assert(end_label == m0.next_label);
        assert(label == m1.next_label);
        assert(state.model() =~= (CgModel { next_label: (m1.next_label + 1) as usize, ..m1 }));
    }
    let mut bc = match byte_expression(state, *cond) {
        Some(c) => c,
        None => return None,
    };
    let ghost cc0 = bc@;
    bc.push(ByteCodeOp::JumpIfFalse(label));
    let ghost step1 = cc0 + seq![ByteCodeOp::JumpIfFalse(label)];
    proof {
        assert(bc@ =~= step1);
    }
    let mut body_code = match byte_body(state, body) {
        Some(c) => c,
        None => return None,
    };
    let ghost bb0 = body_code@;
    bc.append(&mut body_code);
    bc.push(ByteCodeOp::Jump(end_label));
    bc.push(ByteCodeOp::Label(label));
    let ghost step2 = step1 + bb0 + seq![ByteCodeOp::Jump(end_label), ByteCodeOp::Label(label)];
    proof {
        assert(bc@ =~= step2);
    }
    let mut elif_code = match byte_elifs(end_label, state, elifs) {
        Some(c) => c,
        None => return None,
    };
    let ghost ec0 = elif_code@;
    bc.append(&mut elif_code);
    let ghost step3 = step2 + ec0;
    proof {
        assert(bc@ =~= step3);
    }
    let mut els_code = match byte_body(state, els) {
        Some(c) => c,
        None => return None,
    };
    let ghost xc0 = els_code@;
    bc.append(&mut els_code);
    bc.push(ByteCodeOp::Label(end_label));
    let ghost step4 = step3 + xc0 + seq![ByteCodeOp::Label(end_label)];
    proof {
        assert(bc@ =~= step4);
        assert(step4 =~= cc0 + seq![ByteCodeOp::JumpIfFalse(label)] + bb0 + seq![
            ByteCodeOp::Jump(end_label),
            ByteCodeOp::Label(label),
        ] + ec0 + xc0 + seq![ByteCodeOp::Label(end_label)]);
    }
    Some(bc)
}

#[verifier::rlimit(80)]
fn byte_elifs(end_label: usize, state: &mut CodeGenState, elifs: Vec<Elif<Renamed>>) -> (r: Option<
    Vec<ByteCodeOp>,
>)
    ensures
        match sbyte_elifs(end_label, old(state).model(), elifs@) {
            Some(p) => r matches Some(code) && code@ == p.0 && final(state).model() == p.1,
            None => r is None,
        },
    decreases elifs@, 0int,
{
    let mut elifs = elifs;
    let ghost s0 = elifs@;
    if elifs.len() == 0 {
        return Some(Vec::new());
    }
    let first = elifs.remove(0);
    proof {
        assert(elifs@ =~= s0.drop_first());
        assert(first == s0[0]);
    }
    let mut bc = match byte_elif(end_label, state, first) {
        Some(c) => c,
        None => return None,
    };
    let mut rest = match byte_elifs(end_label, state, elifs) {
        Some(c) => c,
        None => return None,
    };
    let ghost c0 = bc@;
    let ghost r0 = rest@;
    bc.append(&mut rest);
    proof {
        assert(bc@ =~= c0 + r0);
    }
    Some(bc)
}

#[verifier::rlimit(80)]
fn byte_elif(end_label: usize, state: &mut CodeGenState, elif: Elif<Renamed>) -> (r: Option<
    Vec<ByteCodeOp>,
>)
    ensures
        match sbyte_elif(end_label, old(state).model(), elif) {
            Some(p) => r matches Some(code) && code@ == p.0 && final(state).model() == p.1,
            None => r is None,
        },
    decreases elif, 0int,
{
    let ghost e0 = elif;
    let Elif { cond, body } = elif;
    let label = match state.get_label() {
        Some(l) => l,
        None => return None,
    };
    proof {
        let m0 = old(state).model();
        assert(label == m0.next_label);
        assert(state.model() =~= (CgModel { next_label: (m0.next_label + 1) as usize, ..m0 }));
    }
    let mut bc = match byte_expression(state, *cond) {
        Some(c) => c,
        None => return None,
    };
    let ghost cc0 = bc@;
    bc.push(ByteCodeOp::JumpIfFalse(label));
    let mut body_code = match byte_body(state, body) {
        Some(c) => c,
        None => return None,
    };
    let ghost bb0 = body_code@;
    bc.append(&mut body_code);
    bc.push(ByteCodeOp::Jump(end_label));
    bc.push(ByteCodeOp::Label(label));
    proof {
        assert(bc@ =~= cc0 + seq![ByteCodeOp::JumpIfFalse(label)] + bb0 + seq![
            ByteCodeOp::Jump(end_label),
            ByteCodeOp::Label(label),
        ]);
    }
    Some(bc)
}

#[verifier::rlimit(80)]
fn byte_body(state: &mut CodeGenState, body: Body<Renamed>) -> (r: Option<Vec<ByteCodeOp>>)
    ensures
        match sbyte_body(old(state).model(), body) {
            Some(p) => r matches Some(code) && code@ == p.0 && final(state).model() == p.1,
            None => r is None,
        },
    decreases body, 0int,
{
    let statements = body.statements;
    if statements.len() == 0 {
        let mut bc: Vec<ByteCodeOp> = Vec::new();
        bc.push(ByteCodeOp::Unit);
        proof {
            assert(bc@ =~= seq![ByteCodeOp::Unit]);
        }
        return Some(bc);
    }
    byte_stmts(state, statements)
}

#[verifier::rlimit(80)]
fn byte_stmts(state: &mut CodeGenState, stmts: Vec<TaggedStatement<Renamed>>) -> (r: Option<
    Vec<ByteCodeOp>,
>)
    ensures
        match sbyte_stmts(old(state).model(), stmts@) {
            Some(p) => r matches Some(code) && code@ == p.0 && final(state).model() == p.1,
            None => r is None,
        },
    decreases stmts@, 0int,
{
    let mut stmts = stmts;
    let ghost s0 = stmts@;
    if stmts.len() == 0 {
        return Some(Vec::new());
    }
    let ts = stmts.remove(0);
    proof {
        assert(stmts@ =~= s0.drop_first());
        assert(ts == s0[0]);
    }
    let mut bc = match byte_statement(state, ts.statement) {
        Some(c) => c,
        None => return None,
    };
    if stmts.len() > 0 {
        let ghost c0 = bc@;
        bc.push(ByteCodeOp::Pop);
        let mut rest = match byte_stmts(state, stmts) {
            Some(c) => c,
            None => return None,
        };
        let ghost r0 = rest@;
        bc.append(&mut rest);
        proof {
            assert(bc@ =~= c0 + seq![ByteCodeOp::Pop] + r0);
        }
    }
    Some(bc)
}

#[verifier::rlimit(80)]
fn byte_orexp(state: &mut CodeGenState, orexp: OrExp<Renamed>) -> (r: Option<Vec<ByteCodeOp>>)
    ensures
        match sbyte_orexp(old(state).model(), orexp) {
            Some(p) => r matches Some(code) && code@ == p.0 && final(state).model() == p.1,
            None => r is None,
        },
    decreases orexp, 0int,
{
    match orexp {
        OrExp::Or(a, o) => {
            // the right operand is evaluated first, the left second
            let mut bc = match byte_orexp(state, *o) {
                Some(c) => c,
                None => return None,
            };
            let mut left = match byte_andexp(state, *a) {
                Some(c) => c,
                None => return None,
            };
            let ghost rc0 = bc@;
            let ghost lc0 = left@;
            bc.append(&mut left);
            bc.push(ByteCodeOp::Or);
            proof {
                assert(bc@ =~= rc0 + lc0 + seq![ByteCodeOp::Or]);
            }
            Some(bc)
        },
        OrExp::AndExp(a) => byte_andexp(state, *a),
    }
}

#[verifier::rlimit(80)]
fn byte_andexp(state: &mut CodeGenState, andexp: AndExp<Renamed>) -> (r: Option<Vec<ByteCodeOp>>)
    ensures
        match sbyte_andexp(old(state).model(), andexp) {
            Some(p) => r matches Some(code) && code@ == p.0 && final(state).model() == p.1,
            None => r is None,
        },
    decreases andexp, 0int,
{
    match andexp {
        AndExp::And(c, a) => {
            let mut bc = match byte_andexp(state, *a) {
                Some(code) => code,
                None => return None,
            };
            let mut left = match byte_compexp(state, *c) {
                Some(code) => code,
                None => return None,
            };
            let ghost rc0 = bc@;
            let ghost lc0 = left@;
            bc.append(&mut left);
            bc.push(ByteCodeOp::And);
            proof {
                assert(bc@ =~= rc0 + lc0 + seq![ByteCodeOp::And]);
            }
            Some(bc)
        },
        AndExp::CompExp(c) => byte_compexp(state, *c),
    }
}

#[verifier::rlimit(80)]
fn byte_compexp(state: &mut CodeGenState, compexp: CompExp<Renamed>) -> (r: Option<Vec<ByteCodeOp>>)
    ensures
        match sbyte_compexp(old(state).model(), compexp) {
            Some(p) => r matches Some(code) && code@ == p.0 && final(state).model() == p.1,
            None => r is None,
        },
    decreases compexp, 0int,
{
    match compexp {
        CompExp::Comp(op, a1, a2) => {
            let mut bc = match byte_addexp(state, *a2) {
                Some(c) => c,
                None => return None,
            };
            let mut left = match byte_addexp(state, *a1) {
                Some(c) => c,
                None => return None,
            };
            let ghost rc0 = bc@;
            let ghost lc0 = left@;
            bc.append(&mut left);
            let ghost mid = bc@;
            match op {
                CompOp::Leq => bc.push(ByteCodeOp::Leq),
                CompOp::Lt => bc.push(ByteCodeOp::Lt),
                CompOp::Eq(t) => {
                    match t {
                        SwindleType::String => bc.push(ByteCodeOp::StringEq),
                        _ => bc.push(ByteCodeOp::Eq),
                    }
                },
                CompOp::Neq(t) => {
                    match t {
                        SwindleType::String => bc.push(ByteCodeOp::StringEq),
                        _ => bc.push(ByteCodeOp::Eq),
                    }
                    bc.push(ByteCodeOp::Not);
                },
                CompOp::Gt => bc.push(ByteCodeOp::Gt),
                CompOp::Geq => bc.push(ByteCodeOp::Geq),
            }
            proof {
                if bc@.len() == mid.len() + 1 {
                    assert(bc@ =~= rc0 + lc0 + seq![bc@[bc@.len() - 1]]);
                } else {
                    assert(bc@ =~= rc0 + lc0 + seq![bc@[bc@.len() - 2], bc@[bc@.len() - 1]]);
                }
            }
            Some(bc)
        },
        CompExp::AddExp(a) => byte_addexp(state, *a),
    }
}

#[verifier::rlimit(80)]
fn byte_addexp(state: &mut CodeGenState, addexp: AddExp<Renamed>) -> (r: Option<Vec<ByteCodeOp>>)
    ensures
        match sbyte_addexp(old(state).model(), addexp) {
            Some(p) => r matches Some(code) && code@ == p.0 && final(state).model() == p.1,
            None => r is None,
        },
    decreases addexp, 0int,
{
    match addexp {
        AddExp::Add(op, m, a) => {
            let mut bc = match byte_addexp(state, *a) {
                Some(c) => c,
                None => return None,
            };
            let mut left = match byte_mulexp(state, *m) {
                Some(c) => c,
                None => return None,
            };
            let ghost rc0 = bc@;
            let ghost lc0 = left@;
            bc.append(&mut left);
            match op {
                AddOp::Sum(t) => {
                    match t {
                        SwindleType::String => bc.push(ByteCodeOp::Append),
                        _ => bc.push(ByteCodeOp::Sum),
                    }
                },
                AddOp::Difference => bc.push(ByteCodeOp::Difference),
            }
            proof {
                assert(bc@ =~= rc0 + lc0 + seq![bc@[bc@.len() - 1]]);
            }
            Some(bc)
        },
        AddExp::MulExp(m) => byte_mulexp(state, *m),
    }
}

#[verifier::rlimit(80)]
fn byte_mulexp(state: &mut CodeGenState, mulexp: MulExp<Renamed>) -> (r: Option<Vec<ByteCodeOp>>)
    ensures
        match sbyte_mulexp(old(state).model(), mulexp) {
            Some(p) => r matches Some(code) && code@ == p.0 && final(state).model() == p.1,
            None => r is None,
        },
    decreases mulexp, 0int,
{
    match mulexp {
        MulExp::Mul(op, u, m) => {
            let mut bc = match byte_mulexp(state, *m) {
                Some(c) => c,
                None => return None,
            };
            let mut left = match byte_unary(state, *u) {
                Some(c) => c,
                None => return None,
            };
            let ghost rc0 = bc@;
            let ghost lc0 = left@;
            bc.append(&mut left);
            match op {
                MulOp::Product => bc.push(ByteCodeOp::Product),
                MulOp::Quotient => bc.push(ByteCodeOp::Quotient),
                MulOp::Remainder => bc.push(ByteCodeOp::Remainder),
            }
            proof {
                assert(bc@ =~= rc0 + lc0 + seq![bc@[bc@.len() - 1]]);
            }
            Some(bc)
        },
        MulExp::Unary(u) => byte_unary(state, *u),
    }
}

#[verifier::rlimit(80)]
fn byte_unary(state: &mut CodeGenState, unary: Unary<Renamed>) -> (r: Option<Vec<ByteCodeOp>>)
    ensures
        match sbyte_unary(old(state).model(), unary) {
            Some(p) => r matches Some(code) && code@ == p.0 && final(state).model() == p.1,
            None => r is None,
        },
    decreases unary, 0int,
{
    match unary {
        Unary::Negate(u) => {
            let mut bc = match byte_unary(state, *u) {
                Some(c) => c,
                None => return None,
            };
            let ghost c0 = bc@;
            bc.push(ByteCodeOp::Negate);
            proof {
                assert(bc@ =~= c0 + seq![ByteCodeOp::Negate]);
            }
            Some(bc)
        },
        Unary::Not(u) => {
            let mut bc = match byte_unary(state, *u) {
                Some(c) => c,
                None => return None,
            };
            let ghost c0 = bc@;
            bc.push(ByteCodeOp::Not);
            proof {
                assert(bc@ =~= c0 + seq![ByteCodeOp::Not]);
            }
            Some(bc)
        },
        Unary::Primary(p) => byte_primary(state, *p),
    }
}

fn byte_primary(state: &mut CodeGenState, primary: Primary<Renamed>) -> (r: Option<Vec<ByteCodeOp>>)
    ensures
        match sbyte_primary(old(state).model(), primary) {
            Some(p) => r matches Some(code) && code@ == p.0 && final(state).model() == p.1,
            None => r is None,
        },
    decreases primary, 0int,
{
    match primary {
        Primary::Paren(e1) => byte_expression(state, *e1),
        Primary::IntLit(n) => {
            let mut bc: Vec<ByteCodeOp> = Vec::new();
            bc.push(ByteCodeOp::IntConst(n));
            proof {
                assert(bc@ =~= seq![bc@[0]]);
            }
            Some(bc)
        },
        Primary::StringLit(s) => {
            let id = state.lookup_string(s);
            let mut bc: Vec<ByteCodeOp> = Vec::new();
            bc.push(ByteCodeOp::StringConst(id));
            proof {
                assert(bc@ =~= seq![bc@[0]]);
            }
            Some(bc)
        },
        Primary::BoolLit(b) => {
            let mut bc: Vec<ByteCodeOp> = Vec::new();
            bc.push(ByteCodeOp::BoolConst(b));
            proof {
                assert(bc@ =~= seq![bc@[0]]);
            }
            Some(bc)
        },
        Primary::Variable(uid) => {
            let mut bc: Vec<ByteCodeOp> = Vec::new();
            bc.push(ByteCodeOp::Variable(uid.get_value()));
            proof {
                assert(bc@ =~= seq![bc@[0]]);
            }
            Some(bc)
        },
        Primary::IfExp(ie) => byte_ifexp(state, ie),
        Primary::WhileExp(we) => byte_whileexp(state, we),
        Primary::Unit => {
            let mut bc: Vec<ByteCodeOp> = Vec::new();
            bc.push(ByteCodeOp::Unit);
            proof {
                assert(bc@ =~= seq![bc@[0]]);
            }
            Some(bc)
        },
    }
}

} // verus!
