use crate::bytecode::{string_views, ByteCodeOp};
use crate::text::{bool_text, bool_to_text, int_text, int_to_text, unit_text, unit_to_text};
use vstd::pervasive::VecAdditionalExecFns;
use vstd::prelude::*;

verus! {

/// A runtime value of the stack machine: integers, booleans and unit are
/// immediate; strings are either references into the program-lifetime
/// constant table (never counted) or references into the counted heap.
#[derive(Debug, Copy, Clone, PartialEq, Eq, Structural)]
pub enum SwindleValue {
    Int(i64),
    ConstString(usize),
    HeapString(usize),
    Bool(bool),
    Unit,
}

/// Why the machine aborted: every variant is an internal inconsistency
/// (or an arithmetic fault), never a user-facing language error.
#[derive(Debug, Copy, Clone, PartialEq, Eq, Structural)]
pub enum VmFault {
    StackUnderflow,
    TypeMismatch,
    BadSlot,
    BadLabel,
    BadStringConst,
    MissingHeapRecord,
    DivisionByZero,
    ArithmeticOverflow,
    RefCountOverflow,
}

/// 1 when `v` is a heap reference to record `id`, else 0.
pub open spec fn ref_one(v: SwindleValue, id: int) -> nat {
    match v {
        SwindleValue::HeapString(u) => if u as int == id {
            1nat
        } else {
            0nat
        },
        _ => 0nat,
    }
}

/// How many of the values in `vs` are heap references to record `id`.
pub open spec fn count_refs(vs: Seq<SwindleValue>, id: int) -> nat
    decreases vs.len(),
{
    if vs.len() == 0 {
        0nat
    } else {
        count_refs(vs.drop_last(), id) + ref_one(vs.last(), id)
    }
}

/// Every heap reference in `vs` points below `hlen`.
pub open spec fn vals_ok(vs: Seq<SwindleValue>, hlen: nat) -> bool {
    forall|j: int|
        0 <= j < vs.len() ==> ((#[trigger] vs[j]) matches SwindleValue::HeapString(u) ==> u
            < hlen)
}

proof fn lemma_count_push(vs: Seq<SwindleValue>, v: SwindleValue, id: int)
    ensures
        count_refs(vs.push(v), id) == count_refs(vs, id) + ref_one(v, id),
{
    assert(vs.push(v).drop_last() =~= vs);
    assert(vs.push(v).last() == v);
}

proof fn lemma_count_update(vs: Seq<SwindleValue>, j: int, v: SwindleValue, id: int)
    requires
        0 <= j < vs.len(),
    ensures
        count_refs(vs.update(j, v), id) + ref_one(vs[j], id) == count_refs(vs, id) + ref_one(
            v,
            id,
        ),
    decreases vs.len(),
{
    let u = vs.update(j, v);
    if j == vs.len() - 1 {
        assert(u.drop_last() =~= vs.drop_last());
        assert(u.last() == v);
    } else {
        assert(u.drop_last() =~= vs.drop_last().update(j, v));
        assert(u.last() == vs.last());
        lemma_count_update(vs.drop_last(), j, v, id);
    }
}

proof fn lemma_count_no_refs(vs: Seq<SwindleValue>, id: int)
    requires
        forall|k: int| 0 <= k < vs.len() ==> ref_one(#[trigger] vs[k], id) == 0,
    ensures
        count_refs(vs, id) == 0,
    decreases vs.len(),
{
    if vs.len() > 0 {
        assert(vs.last() == vs[vs.len() - 1]);
        lemma_count_no_refs(vs.drop_last(), id);
    }
}

proof fn lemma_count_member(vs: Seq<SwindleValue>, j: int, u: usize)
    requires
        0 <= j < vs.len(),
        vs[j] == SwindleValue::HeapString(u),
    ensures
        count_refs(vs, u as int) >= 1,
    decreases vs.len(),
{
    if j == vs.len() - 1 {
        assert(vs.last() == vs[j]);
    } else {
        lemma_count_member(vs.drop_last(), j, u);
    }
}

/// What giving up one reference to cell `id` does to the records and the
/// free list: the count drops by one, and a count reaching zero kills the
/// record and recycles the cell; a dead or out-of-range id changes nothing.
pub open spec fn drop_model(
    records: Seq<Option<(Seq<char>, nat)>>,
    free: Seq<usize>,
    id: usize,
) -> (Seq<Option<(Seq<char>, nat)>>, Seq<usize>) {
    if id < records.len() {
        match records[id as int] {
            Some(p) => if p.1 > 1 {
                (records.update(id as int, Some((p.0, (p.1 - 1) as nat))), free)
            } else {
                (records.update(id as int, None), free.push(id))
            },
            None => (records, free),
        }
    } else {
        (records, free)
    }
}

/// Like `drop_model`, for any runtime value: only a heap string touches
/// the heap.
pub open spec fn drop_value_model(
    records: Seq<Option<(Seq<char>, nat)>>,
    free: Seq<usize>,
    v: SwindleValue,
) -> (Seq<Option<(Seq<char>, nat)>>, Seq<usize>) {
    match v {
        SwindleValue::HeapString(h) => drop_model(records, free, h),
        _ => (records, free),
    }
}

/// What taking one more reference to cell `id` does: the count grows by
/// one, unless it already sits at the ceiling, which is the one failure;
/// a dead or out-of-range id changes nothing.
pub open spec fn access_model(records: Seq<Option<(Seq<char>, nat)>>, id: usize) -> Option<
    Seq<Option<(Seq<char>, nat)>>,
> {
    if id < records.len() {
        match records[id as int] {
            Some(p) => if p.1 == usize::MAX {
                None
            } else {
                Some(records.update(id as int, Some((p.0, (p.1 + 1) as nat))))
            },
            None => Some(records),
        }
    } else {
        Some(records)
    }
}

/// What allocating a record with this content does: the most recently
/// freed cell is reused when one exists, else a fresh cell is appended;
/// either way the new record's count is one. The third component is the
/// chosen cell id.
pub open spec fn alloc_model(
    records: Seq<Option<(Seq<char>, nat)>>,
    free: Seq<usize>,
    content: Seq<char>,
) -> (Seq<Option<(Seq<char>, nat)>>, Seq<usize>, usize) {
    if free.len() > 0 {
        (records.update(free.last() as int, Some((content, 1nat))), free.drop_last(), free.last())
    } else {
        (records.push(Some((content, 1nat))), free, records.len() as usize)
    }
}

/// The counted heap for runtime string values: a record is a content
/// string and a reference count; cell ids are recycled through a free
/// list once a record's count reaches zero.
pub struct Heap {
    contents: Vec<Option<String>>,
    counts: Vec<usize>,
    free: Vec<usize>,
}

impl Heap {
    /// How many record cells exist (live ones and recycled ones).
    pub closed spec fn len(self) -> nat {
        self.contents@.len()
    }

    /// All record cells at once: the content and count of each live one.
    pub closed spec fn records_view(self) -> Seq<Option<(Seq<char>, nat)>> {
        Seq::new(
            self.contents@.len(),
            |i: int|
                match self.contents@[i] {
                    Some(s) => Some((s@, self.counts@[i] as nat)),
                    None => None,
                },
        )
    }

    /// The dead, reusable cell ids, most recently freed last.
    pub closed spec fn free_view(self) -> Seq<usize> {
        self.free@
    }

    /// The content and reference count of record `id`, if it is live.
    pub open spec fn record(self, id: int) -> Option<(Seq<char>, nat)> {
        if 0 <= id < self.records_view().len() {
            self.records_view()[id]
        } else {
            None
        }
    }

    /// Internal well-formedness: the free list names exactly dead cells,
    /// without repetition, and live records have a positive count.
    pub closed spec fn wf(self) -> bool {
        &&& self.counts@.len() == self.contents@.len()
        &&& forall|k: int|
            0 <= k < self.free@.len() ==> (#[trigger] self.free@[k]) < self.contents@.len()
                && self.contents@[self.free@[k] as int] is None
        &&& forall|k1: int, k2: int|
            0 <= k1 < k2 < self.free@.len() ==> self.free@[k1] != self.free@[k2]
        &&& forall|i: int|
            0 <= i < self.contents@.len() && self.contents@[i] is Some ==> self.counts@[i] >= 1
    }

    /// No record is live.
    pub open spec fn is_empty_spec(self) -> bool {
        forall|id: int| 0 <= id < self.len() ==> self.record(id) is None
    }

    pub fn new() -> (h: Heap)
        ensures
            h.wf(),
            h.len() == 0,
            h.records_view() == Seq::<Option<(Seq<char>, nat)>>::empty(),
            h.free_view() == Seq::<usize>::empty(),
    {
        Heap { contents: Vec::new(), counts: Vec::new(), free: Vec::new() }
    }

    /// Makes a new live record holding `string` with count 1, reusing a
    /// dead cell when one is free.
    pub fn allocate(&mut self, string: String) -> (id: usize)
        requires
            old(self).wf(),
        ensures
            final(self).wf(),
            old(self).len() <= final(self).len() <= old(self).len() + 1,
            id < final(self).len(),
            old(self).record(id as int) is None,
            final(self).record(id as int) == Some((string@, 1nat)),
            forall|j: int| j != id ==> final(self).record(j) == old(self).record(j),
            final(self).records_view() == alloc_model(
                old(self).records_view(),
                old(self).free_view(),
                string@,
            ).0,
            final(self).free_view() == alloc_model(
                old(self).records_view(),
                old(self).free_view(),
                string@,
            ).1,
            id == alloc_model(old(self).records_view(), old(self).free_view(), string@).2,
    {
        let ghost rec0 = self.records_view();
        match self.free.pop() {
            Some(id) => {
                self.contents.set(id, Some(string));
                self.counts.set(id, 1);
                proof {
                    assert(self.records_view() =~= rec0.update(
                        id as int,
                        Some((string@, 1nat)),
                    ));
                }
                id
            },
            None => {
                let id = self.contents.len();
                self.contents.push(Some(string));
                self.counts.push(1);
                proof {
                    assert(self.records_view() =~= rec0.push(Some((string@, 1nat))));
                }
                id
            },
        }
    }

    /// Gives up one reference to record `id`: decrements its count and
    /// removes it (recycling the cell) when the count reaches zero.
    /// A dead or out-of-range id is left alone.
    pub fn drop(&mut self, id: usize)
        requires
            old(self).wf(),
        ensures
            final(self).wf(),
            final(self).len() == old(self).len(),
            match old(self).record(id as int) {
                Some(p) => if p.1 > 1 {
                    final(self).record(id as int) == Some((p.0, (p.1 - 1) as nat))
                } else {
                    final(self).record(id as int) is None
                },
                None => final(self).record(id as int) is None,
            },
            forall|j: int| j != id ==> final(self).record(j) == old(self).record(j),
            final(self).records_view() == drop_model(
                old(self).records_view(),
                old(self).free_view(),
                id,
            ).0,
            final(self).free_view() == drop_model(
                old(self).records_view(),
                old(self).free_view(),
                id,
            ).1,
    {
        let ghost rec0 = self.records_view();
        if id < self.contents.len() {
            let live = match &self.contents[id] {
                Some(_) => true,
                None => false,
            };
            if live {
                let c = self.counts[id];
                if c <= 1 {
                    self.contents.set(id, None);
                    self.counts.set(id, 0);
                    self.free.push(id);
                    proof {
                        assert(self.records_view() =~= rec0.update(id as int, None));
                    }
                } else {
                    self.counts.set(id, c - 1);
                    proof {
                        assert(self.records_view() =~= rec0.update(
                            id as int,
                            Some((self.contents@[id as int]->0@, (c - 1) as nat)),
                        ));
                    }
                }
            }
        }
    }

    /// Takes one more reference to record `id`: increments its count.
    /// Returns false only when the count cannot grow without overflowing;
    /// a dead or out-of-range id is left alone.
    pub fn access(&mut self, id: usize) -> (r: bool)
        requires
            old(self).wf(),
        ensures
            final(self).wf(),
            final(self).len() == old(self).len(),
            r ==> match old(self).record(id as int) {
                Some(p) => final(self).record(id as int) == Some((p.0, (p.1 + 1) as nat)),
                None => final(self).record(id as int) is None,
            },
            !r ==> *final(self) == *old(self),
            !r ==> (old(self).record(id as int) matches Some(p) && p.1 == usize::MAX),
            forall|j: int| j != id ==> final(self).record(j) == old(self).record(j),
            match access_model(old(self).records_view(), id) {
                Some(rec2) => r == true && final(self).records_view() == rec2 && final(self).free_view() == old(self).free_view(),
                None => r == false,
            },
    {
        let ghost rec0 = self.records_view();
        if id < self.contents.len() {
            let live = match &self.contents[id] {
                Some(_) => true,
                None => false,
            };
            if live {
                let c = self.counts[id];
                if c == usize::MAX {
                    return false;
                }
                self.counts.set(id, c + 1);
                proof {
                    assert(self.records_view() =~= rec0.update(
                        id as int,
                        Some((self.contents@[id as int]->0@, (c + 1) as nat)),
                    ));
                }
            }
        }
        proof {
            assert(self.records_view() =~= rec0 || self.records_view() == access_model(
                rec0,
                id,
            )->Some_0);
        }
        true
    }

    /// The content of live record `id`.
    pub fn get(&self, id: usize) -> (r: Option<&String>)
        ensures
            match r {
                Some(s) => self.record(id as int) matches Some(p) && p.0 == s@,
                None => self.record(id as int) is None,
            },
    {
        if id < self.contents.len() {
            match &self.contents[id] {
                Some(s) => Some(s),
                None => None,
            }
        } else {
            None
        }
    }

    /// True when no record is live, as a scan of the cells.
    pub fn is_empty(&self) -> (r: bool)
        ensures
            r == self.is_empty_spec(),
    {
        let mut i: usize = 0;
        while i < self.contents.len()
            invariant
                i <= self.contents@.len(),
                forall|id: int| 0 <= id < i ==> self.record(id) is None,
            decreases self.contents@.len() - i,
        {
            match &self.contents[i] {
                Some(_) => {
                    assert(self.record(i as int) is Some);
                    return false;
                },
                None => {},
            }
            i = i + 1;
        }
        true
    }
}

proof fn lemma_count_push_all(vs: Seq<SwindleValue>, v: SwindleValue)
    ensures
        forall|id: int|
            count_refs(#[trigger] vs.push(v), id) == count_refs(vs, id) + ref_one(v, id),
{
    assert forall|id: int|
        count_refs(#[trigger] vs.push(v), id) == count_refs(vs, id) + ref_one(v, id) by {
        lemma_count_push(vs, v, id);
    }
}

proof fn lemma_count_update_all(vs: Seq<SwindleValue>, j: int, v: SwindleValue)
    requires
        0 <= j < vs.len(),
    ensures
        forall|id: int|
            count_refs(#[trigger] vs.update(j, v), id) + ref_one(vs[j], id) == count_refs(vs, id)
                + ref_one(v, id),
{
    assert forall|id: int|
        count_refs(#[trigger] vs.update(j, v), id) + ref_one(vs[j], id) == count_refs(vs, id)
            + ref_one(v, id) by {
        lemma_count_update(vs, j, v, id);
    }
}

proof fn lemma_vals_ok_push(vs: Seq<SwindleValue>, v: SwindleValue, hlen: nat)
    requires
        vals_ok(vs, hlen),
        v matches SwindleValue::HeapString(u) ==> u < hlen,
    ensures
        vals_ok(vs.push(v), hlen),
{
    let vs2 = vs.push(v);
    assert forall|j: int|
        0 <= j < vs2.len() implies ((#[trigger] vs2[j]) matches SwindleValue::HeapString(u) ==> u
        < hlen) by {
        if j < vs.len() {
            assert(vs2[j] == vs[j]);
        } else {
            assert(vs2[j] == v);
        }
    }
}

proof fn lemma_vals_ok_drop_last(vs: Seq<SwindleValue>, hlen: nat)
    requires
        vals_ok(vs, hlen),
        vs.len() > 0,
    ensures
        vals_ok(vs.drop_last(), hlen),
{
    let vs2 = vs.drop_last();
    assert forall|j: int|
        0 <= j < vs2.len() implies ((#[trigger] vs2[j]) matches SwindleValue::HeapString(u) ==> u
        < hlen) by {
        assert(vs2[j] == vs[j]);
    }
}

proof fn lemma_vals_ok_update(vs: Seq<SwindleValue>, j: int, v: SwindleValue, hlen: nat)
    requires
        vals_ok(vs, hlen),
        0 <= j < vs.len(),
        v matches SwindleValue::HeapString(u) ==> u < hlen,
    ensures
        vals_ok(vs.update(j, v), hlen),
{
    let vs2 = vs.update(j, v);
    assert forall|k: int|
        0 <= k < vs2.len() implies ((#[trigger] vs2[k]) matches SwindleValue::HeapString(u) ==> u
        < hlen) by {
        if k != j {
            assert(vs2[k] == vs[k]);
        }
    }
}

proof fn lemma_vals_ok_grow(vs: Seq<SwindleValue>, h1: nat, h2: nat)
    requires
        vals_ok(vs, h1),
        h1 <= h2,
    ensures
        vals_ok(vs, h2),
{
    assert forall|j: int|
        0 <= j < vs.len() implies ((#[trigger] vs[j]) matches SwindleValue::HeapString(u) ==> u
        < h2) by {
        assert(vs[j] matches SwindleValue::HeapString(u) ==> u < h1);
    }
}


/// The machine's state as plain values: instruction pointer, operand
/// stack, variable slots, heap records, free list, and the text written
/// so far. The code, label table and string-constant table never change
/// during a run, so they stand apart.
#[verifier::ext_equal]
pub struct MachineState {
    pub idx: int,
    pub stack: Seq<SwindleValue>,
    pub vars: Seq<SwindleValue>,
    pub records: Seq<Option<(Seq<char>, nat)>>,
    pub free: Seq<usize>,
    pub output: Seq<char>,
}

/// What one instruction does: the next state, or the fault it stops on.
#[verifier::ext_equal]
pub enum StepOutcome {
    Step(MachineState),
    Fault(VmFault),
}

/// How a bounded run ends: the program halted (the pointer ran past the
/// code), the step budget ran out first, or an instruction faulted.
#[verifier::ext_equal]
pub enum RunOutcome {
    Halted(MachineState),
    Paused(MachineState),
    Faulted(VmFault),
}

/// The character content a string-valued operand stands for, or the
/// fault for a value that is no string or points at nothing.
pub open spec fn string_content(
    strings: Seq<Seq<char>>,
    records: Seq<Option<(Seq<char>, nat)>>,
    v: SwindleValue,
) -> Result<Seq<char>, VmFault> {
    match v {
        SwindleValue::ConstString(u) => if u < strings.len() {
            Ok(strings[u as int])
        } else {
            Err(VmFault::BadStringConst)
        },
        SwindleValue::HeapString(u) => if u < records.len() {
            match records[u as int] {
                Some(p) => Ok(p.0),
                None => Err(VmFault::MissingHeapRecord),
            }
        } else {
            Err(VmFault::MissingHeapRecord)
        },
        _ => Err(VmFault::TypeMismatch),
    }
}

/// What printing a value shows: integers in decimal, booleans as
/// `true`/`false`, unit as `()`, strings verbatim.
pub open spec fn display_text(
    strings: Seq<Seq<char>>,
    records: Seq<Option<(Seq<char>, nat)>>,
    v: SwindleValue,
) -> Result<Seq<char>, VmFault> {
    match v {
        SwindleValue::Int(n) => Ok(int_text(n as int)),
        SwindleValue::Bool(b) => Ok(bool_text(b)),
        SwindleValue::Unit => Ok(unit_text()),
        _ => string_content(strings, records, v),
    }
}

/// The exact effect of one instruction on the machine's state, without
/// the pointer advance that follows every non-faulting instruction.
pub open spec fn spec_exec_op(
    strings: Seq<Seq<char>>,
    labels: Seq<Option<usize>>,
    op: ByteCodeOp,
    st: MachineState,
) -> StepOutcome {
    match op {
        ByteCodeOp::IntConst(n) => StepOutcome::Step(
            MachineState { stack: st.stack.push(SwindleValue::Int(n)), ..st },
        ),
        ByteCodeOp::StringConst(u) => if u >= strings.len() {
            StepOutcome::Fault(VmFault::BadStringConst)
        } else {
            StepOutcome::Step(
                MachineState { stack: st.stack.push(SwindleValue::ConstString(u)), ..st },
            )
        },
        ByteCodeOp::BoolConst(b) => StepOutcome::Step(
            MachineState { stack: st.stack.push(SwindleValue::Bool(b)), ..st },
        ),
        ByteCodeOp::Unit => StepOutcome::Step(
            MachineState { stack: st.stack.push(SwindleValue::Unit), ..st },
        ),
        ByteCodeOp::Variable(u) => if u >= st.vars.len() {
            StepOutcome::Fault(VmFault::BadSlot)
        } else {
            let v = st.vars[u as int];
            let st1 = MachineState { stack: st.stack.push(v), ..st };
            match v {
                SwindleValue::HeapString(h) => match access_model(st.records, h) {
                    Some(rec2) => StepOutcome::Step(MachineState { records: rec2, ..st1 }),
                    None => StepOutcome::Fault(VmFault::RefCountOverflow),
                },
                _ => StepOutcome::Step(st1),
            }
        },
        ByteCodeOp::Pop => if st.stack.len() == 0 {
            StepOutcome::Fault(VmFault::StackUnderflow)
        } else {
            let v = st.stack.last();
            let hm = drop_value_model(st.records, st.free, v);
            StepOutcome::Step(
                MachineState { stack: st.stack.drop_last(), records: hm.0, free: hm.1, ..st },
            )
        },
        ByteCodeOp::Negate | ByteCodeOp::Not => if st.stack.len() == 0 {
            StepOutcome::Fault(VmFault::StackUnderflow)
        } else {
            let a = st.stack.last();
            let s1 = st.stack.drop_last();
            match (op, a) {
                (ByteCodeOp::Negate, SwindleValue::Int(x)) => StepOutcome::Step(
                    MachineState {
                        stack: s1.push(
                            SwindleValue::Int(
                                if x == i64::MIN {
                                    x
                                } else {
                                    (-x) as i64
                                },
                            ),
                        ),
                        ..st
                    },
                ),
                (ByteCodeOp::Not, SwindleValue::Bool(b)) => StepOutcome::Step(
                    MachineState { stack: s1.push(SwindleValue::Bool(!b)), ..st },
                ),
                _ => StepOutcome::Fault(VmFault::TypeMismatch),
            }
        },
        ByteCodeOp::Product | ByteCodeOp::Quotient | ByteCodeOp::Remainder | ByteCodeOp::Sum
            | ByteCodeOp::Difference | ByteCodeOp::Leq | ByteCodeOp::Lt | ByteCodeOp::Eq
            | ByteCodeOp::Gt | ByteCodeOp::Geq | ByteCodeOp::And | ByteCodeOp::Or => if st.stack.len()
            == 0 {
            StepOutcome::Fault(VmFault::StackUnderflow)
        } else {
            let a = st.stack.last();
            let s1 = st.stack.drop_last();
            if s1.len() == 0 {
                StepOutcome::Fault(VmFault::StackUnderflow)
            } else {
                let b = s1.last();
                let s2 = s1.drop_last();
                match scalar_binop_result(op, a, b) {
                    Ok(v) => StepOutcome::Step(MachineState { stack: s2.push(v), ..st }),
                    Err(f) => StepOutcome::Fault(f),
                }
            }
        },
        ByteCodeOp::StringEq => if st.stack.len() == 0 {
            StepOutcome::Fault(VmFault::StackUnderflow)
        } else {
            let a = st.stack.last();
            let s1 = st.stack.drop_last();
            if s1.len() == 0 {
                StepOutcome::Fault(VmFault::StackUnderflow)
            } else {
                let b = s1.last();
                let s2 = s1.drop_last();
                match string_content(strings, st.records, a) {
                    Err(f) => StepOutcome::Fault(f),
                    Ok(sa) => match string_content(strings, st.records, b) {
                        Err(f) => StepOutcome::Fault(f),
                        Ok(sb) => {
                            let h1 = drop_value_model(st.records, st.free, a);
                            let h2 = drop_value_model(h1.0, h1.1, b);
                            StepOutcome::Step(
                                MachineState {
                                    stack: s2.push(SwindleValue::Bool(sa == sb)),
                                    records: h2.0,
                                    free: h2.1,
                                    ..st
                                },
                            )
                        },
                    },
                }
            }
        },
        ByteCodeOp::Append => if st.stack.len() == 0 {
            StepOutcome::Fault(VmFault::StackUnderflow)
        } else {
            let a = st.stack.last();
            let s1 = st.stack.drop_last();
            if s1.len() == 0 {
                StepOutcome::Fault(VmFault::StackUnderflow)
            } else {
                let b = s1.last();
                let s2 = s1.drop_last();
                match string_content(strings, st.records, a) {
                    Err(f) => StepOutcome::Fault(f),
                    Ok(sa) => match string_content(strings, st.records, b) {
                        Err(f) => StepOutcome::Fault(f),
                        Ok(sb) => {
                            let h1 = drop_value_model(st.records, st.free, a);
                            let h2 = drop_value_model(h1.0, h1.1, b);
                            let al = alloc_model(h2.0, h2.1, sa + sb);
                            StepOutcome::Step(
                                MachineState {
                                    stack: s2.push(SwindleValue::HeapString(al.2)),
                                    records: al.0,
                                    free: al.1,
                                    ..st
                                },
                            )
                        },
                    },
                }
            }
        },
        ByteCodeOp::Assign(u) => if u >= st.vars.len() {
            StepOutcome::Fault(VmFault::BadSlot)
        } else if st.stack.len() == 0 {
            StepOutcome::Fault(VmFault::StackUnderflow)
        } else {
            let v = st.stack.last();
            let s1 = st.stack.drop_last();
            let old_v = st.vars[u as int];
            let vars2 = st.vars.update(u as int, v);
            let hm = drop_value_model(st.records, st.free, old_v);
            match v {
                SwindleValue::HeapString(h) => match access_model(hm.0, h) {
                    Some(rec2) => StepOutcome::Step(
                        MachineState {
                            stack: s1.push(v),
                            vars: vars2,
                            records: rec2,
                            free: hm.1,
                            ..st
                        },
                    ),
                    None => StepOutcome::Fault(VmFault::RefCountOverflow),
                },
                _ => StepOutcome::Step(
                    MachineState {
                        stack: s1.push(v),
                        vars: vars2,
                        records: hm.0,
                        free: hm.1,
                        ..st
                    },
                ),
            }
        },
        ByteCodeOp::Declare(u) => if u >= st.vars.len() {
            StepOutcome::Fault(VmFault::BadSlot)
        } else if st.stack.len() == 0 {
            StepOutcome::Fault(VmFault::StackUnderflow)
        } else {
            let v = st.stack.last();
            let s1 = st.stack.drop_last();
            let old_v = st.vars[u as int];
            let vars2 = st.vars.update(u as int, v);
            let hm = drop_value_model(st.records, st.free, old_v);
            StepOutcome::Step(
                MachineState { stack: s1, vars: vars2, records: hm.0, free: hm.1, ..st },
            )
        },
        ByteCodeOp::Write | ByteCodeOp::Writeln => if st.stack.len() == 0 {
            StepOutcome::Fault(VmFault::StackUnderflow)
        } else {
            let v = st.stack.last();
            let s1 = st.stack.drop_last();
            match display_text(strings, st.records, v) {
                Err(f) => StepOutcome::Fault(f),
                Ok(text) => {
                    let out2 = if op == ByteCodeOp::Writeln {
                        (st.output + text).push('\n')
                    } else {
                        st.output + text
                    };
                    let hm = drop_value_model(st.records, st.free, v);
                    StepOutcome::Step(
                        MachineState {
                            stack: s1,
                            records: hm.0,
                            free: hm.1,
                            output: out2,
                            ..st
                        },
                    )
                },
            }
        },
        ByteCodeOp::Label(_) => StepOutcome::Step(st),
        ByteCodeOp::Jump(l) => if l >= labels.len() {
            StepOutcome::Fault(VmFault::BadLabel)
        } else {
            match labels[l as int] {
                Some(p) => StepOutcome::Step(MachineState { idx: p as int, ..st }),
                None => StepOutcome::Fault(VmFault::BadLabel),
            }
        },
        ByteCodeOp::JumpIfFalse(l) => if st.stack.len() == 0 {
            StepOutcome::Fault(VmFault::StackUnderflow)
        } else {
            let v = st.stack.last();
            let s1 = st.stack.drop_last();
            match v {
                SwindleValue::Bool(b) => if !b {
                    if l >= labels.len() {
                        StepOutcome::Fault(VmFault::BadLabel)
                    } else {
                        match labels[l as int] {
                            Some(p) => StepOutcome::Step(
                                MachineState { idx: p as int, stack: s1, ..st },
                            ),
                            None => StepOutcome::Fault(VmFault::BadLabel),
                        }
                    }
                } else {
                    StepOutcome::Step(MachineState { stack: s1, ..st })
                },
                _ => StepOutcome::Fault(VmFault::TypeMismatch),
            }
        },
    }
}

/// Fetch-dispatch-advance for at most `fuel` instructions: the machine
/// halts when the pointer runs past the code, pauses when the budget is
/// spent first, and stops on the first fault. Each executed instruction
/// is `spec_exec_op` followed by the pointer advance.
pub open spec fn spec_run(
    code: Seq<ByteCodeOp>,
    labels: Seq<Option<usize>>,
    strings: Seq<Seq<char>>,
    st: MachineState,
    fuel: nat,
) -> RunOutcome
    decreases fuel,
{
    if st.idx >= code.len() {
        RunOutcome::Halted(st)
    } else if fuel == 0 {
        RunOutcome::Paused(st)
    } else {
        match spec_exec_op(strings, labels, code[st.idx], st) {
            StepOutcome::Step(st2) => spec_run(
                code,
                labels,
                strings,
                MachineState { idx: st2.idx + 1, ..st2 },
                (fuel - 1) as nat,
            ),
            StepOutcome::Fault(f) => RunOutcome::Faulted(f),
        }
    }
}

/// The state a machine starts in: pointer at zero, empty stack, heap and
/// output, and every slot holding unit.
pub open spec fn vm_init(num_variables: nat) -> MachineState {
    MachineState {
        idx: 0,
        stack: Seq::empty(),
        vars: Seq::new(num_variables, |i: int| SwindleValue::Unit),
        records: Seq::empty(),
        free: Seq::empty(),
        output: Seq::empty(),
    }
}

/// The offset of the last `Label(l)` marker in the code, if any.
pub open spec fn find_label(code: Seq<ByteCodeOp>, l: usize) -> Option<usize>
    decreases code.len(),
{
    if code.len() == 0 {
        None
    } else if code.last() == ByteCodeOp::Label(l) {
        Some((code.len() - 1) as usize)
    } else {
        find_label(code.drop_last(), l)
    }
}

/// The label table the one-pass resolution builds: for each label id its
/// defining offset in the code, or nothing for an undefined label.
pub open spec fn resolve_labels(code: Seq<ByteCodeOp>, num_labels: nat) -> Seq<Option<usize>> {
    Seq::new(num_labels, |l: int| find_label(code, l as usize))
}

/// The stack machine: an instruction pointer, an operand stack, a slot
/// array for variables, the resolved label table, the string-constant
/// table, the counted heap, and the text the program has written so far.
pub struct VM {
    bytecode: Vec<ByteCodeOp>,
    idx: usize,
    strings: Vec<String>,
    variables: Vec<SwindleValue>,
    stack: Vec<SwindleValue>,
    labels: Vec<Option<usize>>,
    heap: Heap,
    output: String,
}

impl VM {
    /// The operand stack, bottom first.
    pub closed spec fn stack_view(self) -> Seq<SwindleValue> {
        self.stack@
    }

    /// The variable slots.
    pub closed spec fn vars_view(self) -> Seq<SwindleValue> {
        self.variables@
    }

    /// Everything the program has written so far.
    pub closed spec fn output_view(self) -> Seq<char> {
        self.output@
    }

    /// The machine's heap.
    pub closed spec fn heap_of(self) -> Heap {
        self.heap
    }

    /// The instruction sequence the machine executes.
    pub closed spec fn code_view(self) -> Seq<ByteCodeOp> {
        self.bytecode@
    }

    /// The resolved label table.
    pub closed spec fn labels_view(self) -> Seq<Option<usize>> {
        self.labels@
    }

    /// The string-constant table's contents.
    pub closed spec fn strings_view(self) -> Seq<Seq<char>> {
        string_views(self.strings@)
    }

    /// The machine's whole mutable state as plain values.
    pub closed spec fn abs(self) -> MachineState {
        MachineState {
            idx: self.idx as int,
            stack: self.stack@,
            vars: self.variables@,
            records: self.heap.records_view(),
            free: self.heap.free_view(),
            output: self.output@,
        }
    }

    /// The reference-counting discipline, the machine's central invariant:
    /// every live heap record's count equals the number of roots (operand
    /// stack entries plus variable slots) that reference it, a dead record
    /// has no root at all, and every root points at an existing cell.
    pub closed spec fn inv(self) -> bool {
        &&& self.heap.wf()
        &&& vals_ok(self.stack@, self.heap.len())
        &&& vals_ok(self.variables@, self.heap.len())
        &&& forall|id: int|
            0 <= id < self.heap.len() ==> match #[trigger] self.heap.record(id) {
                Some(p) => p.1 == count_refs(self.stack@, id) + count_refs(self.variables@, id),
                None => count_refs(self.stack@, id) + count_refs(self.variables@, id) == 0,
            }
        &&& forall|l: int|
            0 <= l < self.labels@.len() ==> ((#[trigger] self.labels@[l]) matches Some(p) ==> p
                < self.bytecode@.len())
    }

    /// Builds a machine for `bytecode`: the pointer at zero, every slot
    /// holding unit, empty stack, heap and output, and the label table
    /// resolved in one prepass over the code, each entry the offset of
    /// its label's marker.
    pub fn new(
        bytecode: Vec<ByteCodeOp>,
        strings: Vec<String>,
        num_variables: usize,
        num_labels: usize,
    ) -> (vm: VM)
        ensures
            vm.inv(),
            vm.code_view() == bytecode@,
            vm.strings_view() == string_views(strings@),
            vm.labels_view() == resolve_labels(bytecode@, num_labels as nat),
            vm.abs() == vm_init(num_variables as nat),
            vm.stack_view().len() == 0,
            vm.vars_view().len() == num_variables,
            forall|i: int| 0 <= i < num_variables ==> vm.vars_view()[i] == SwindleValue::Unit,
            vm.output_view() == Seq::<char>::empty(),
            vm.heap_of().len() == 0,
    {
        let mut labels: Vec<Option<usize>> = Vec::new();
        let mut i: usize = 0;
        while i < num_labels
            invariant
                i <= num_labels,
                labels@.len() == i,
                forall|l: int| 0 <= l < i ==> labels@[l] is None,
            decreases num_labels - i,
        {
            labels.push(None);
            i = i + 1;
        }
        proof {
            assert(bytecode@.take(0) =~= Seq::<ByteCodeOp>::empty());
        }
        let mut j: usize = 0;
        while j < bytecode.len()
            invariant
                j <= bytecode@.len(),
                labels@.len() == num_labels,
                forall|l: int|
                    0 <= l < num_labels ==> ((#[trigger] labels@[l]) matches Some(p) ==> p
                        < bytecode@.len()),
                forall|l: int|
                    0 <= l < num_labels ==> #[trigger] labels@[l] == find_label(
                        bytecode@.take(j as int),
                        l as usize,
                    ),
            decreases bytecode@.len() - j,
        {
            proof {
                assert(bytecode@.take(j + 1).drop_last() =~= bytecode@.take(j as int));
                assert(bytecode@.take(j + 1).last() == bytecode@[j as int]);
            }
            match bytecode[j] {
                ByteCodeOp::Label(l) => {
                    if l < num_labels {
                        labels.set(l, Some(j));
                    }
                },
                _ => {},
            }
            j = j + 1;
        }
        proof {
            assert(bytecode@.take(bytecode@.len() as int) =~= bytecode@);
        }
        let mut variables: Vec<SwindleValue> = Vec::new();
        let mut k: usize = 0;
        while k < num_variables
            invariant
                k <= num_variables,
                variables@.len() == k,
                forall|v: int| 0 <= v < k ==> variables@[v] == SwindleValue::Unit,
            decreases num_variables - k,
        {
            variables.push(SwindleValue::Unit);
            k = k + 1;
        }
        let vm = VM {
            bytecode,
            idx: 0,
            strings,
            variables,
            stack: Vec::new(),
            labels,
            heap: Heap::new(),
            output: String::new(),
        };
        proof {
            assert forall|id: int| 0 <= id < vm.heap.len() implies match #[trigger] vm.heap.record(
                id,
            ) {
                Some(p) => p.1 == count_refs(vm.stack@, id) + count_refs(vm.variables@, id),
                None => count_refs(vm.stack@, id) + count_refs(vm.variables@, id) == 0,
            } by {}
            assert(vm.labels_view() =~= resolve_labels(vm.bytecode@, num_labels as nat));
            assert(vm.abs() =~= vm_init(num_variables as nat));
        }
        vm
    }

    /// What printing `value` shows: integers in decimal, booleans as
    /// `true`/`false`, unit as `()`, strings verbatim; nothing when the
    /// value points at a missing constant or heap record.
    pub open spec fn display_spec(self, value: SwindleValue) -> Option<Seq<char>> {
        match display_text(self.strings_view(), self.heap_of().records_view(), value) {
            Ok(t) => Some(t),
            Err(_) => None,
        }
    }

    /// The displayed form of a value, selected by its runtime tag:
    /// exactly what `display_text` says, fault and all.
    pub fn display(&self, value: SwindleValue) -> (r: Result<String, VmFault>)
        ensures
            match r {
                Ok(s) => display_text(self.strings_view(), self.heap_of().records_view(), value)
                    == Ok::<Seq<char>, VmFault>(s@),
                Err(f) => display_text(self.strings_view(), self.heap_of().records_view(), value)
                    == Err::<Seq<char>, VmFault>(f),
            },
            r matches Ok(s) ==> self.display_spec(value) == Some(s@),
            r is Err ==> self.display_spec(value) is None,
    {
        match value {
            SwindleValue::Int(n) => Ok(int_to_text(n)),
            SwindleValue::Bool(b) => Ok(bool_to_text(b)),
            SwindleValue::Unit => Ok(unit_to_text()),
            SwindleValue::ConstString(u) => {
                if u < self.strings.len() {
                    Ok(self.strings[u].clone())
                } else {
                    Err(VmFault::BadStringConst)
                }
            },
            SwindleValue::HeapString(u) => {
                match self.heap.get(u) {
                    Some(s) => Ok(s.clone()),
                    None => Err(VmFault::MissingHeapRecord),
                }
            },
        }
    }

    /// True when the heap holds no live record; after a full run of a
    /// program this is exactly "no string was leaked".
    pub fn heap_is_empty(&self) -> (r: bool)
        ensures
            r == self.heap_of().is_empty_spec(),
    {
        self.heap.is_empty()
    }

    /// How many values the operand stack holds.
    pub fn stack_depth(&self) -> (r: usize)
        ensures
            r == self.stack_view().len(),
    {
        self.stack.len()
    }

    /// Everything the program has written so far.
    pub fn output(&self) -> (r: &String)
        ensures
            r@ == self.output_view(),
    {
        &self.output
    }

    fn push_scalar(&mut self, v: SwindleValue)
        requires
            old(self).inv(),
            !(v is HeapString),
        ensures
            final(self).inv(),
            final(self).bytecode@ == old(self).bytecode@,
            final(self).labels@ == old(self).labels@,
            final(self).strings@ == old(self).strings@,
            final(self).idx == old(self).idx,
            final(self).abs() == (MachineState {
                stack: old(self).abs().stack.push(v),
                ..old(self).abs()
            }),
    {
        let ghost s0 = self.stack@;
        self.stack.push(v);
        proof {
            lemma_count_push_all(s0, v);
            lemma_vals_ok_push(s0, v, self.heap.len());
            assert(self.abs() =~= (MachineState {
                stack: old(self).abs().stack.push(v),
                ..old(self).abs()
            }));
        }
    }

    fn op_string_const(&mut self, u: usize) -> (r: Result<(), VmFault>)
        requires
            old(self).inv(),
        ensures
            r is Ok ==> final(self).inv() && final(self).bytecode@ == old(self).bytecode@ && final(self).idx == old(self).idx,
            r is Ok ==> final(self).labels@ == old(self).labels@ && final(self).strings@ == old(self).strings@,
            r is Ok ==> spec_exec_op(old(self).strings_view(), old(self).labels_view(), ByteCodeOp::StringConst(u), old(self).abs()) == StepOutcome::Step(final(self).abs()),
            r matches Err(f) ==> spec_exec_op(old(self).strings_view(), old(self).labels_view(), ByteCodeOp::StringConst(u), old(self).abs()) == StepOutcome::Fault(f),
    {
        if u >= self.strings.len() {
            return Err(VmFault::BadStringConst);
        }
        self.push_scalar(SwindleValue::ConstString(u));
        proof {
            let so = spec_exec_op(
                old(self).strings_view(),
                old(self).labels_view(),
                ByteCodeOp::StringConst(u),
                old(self).abs(),
            );
            match so {
                StepOutcome::Step(st2) => {
                    assert(self.abs() =~= st2);
                },
                StepOutcome::Fault(_) => {},
            }
        }
        Ok(())
    }

    fn op_pop(&mut self) -> (r: Result<(), VmFault>)
        requires
            old(self).inv(),
        ensures
            r is Ok ==> final(self).inv() && final(self).bytecode@ == old(self).bytecode@ && final(self).idx == old(self).idx,
            r is Ok ==> final(self).labels@ == old(self).labels@ && final(self).strings@ == old(self).strings@,
            r is Ok ==> spec_exec_op(old(self).strings_view(), old(self).labels_view(), ByteCodeOp::Pop, old(self).abs()) == StepOutcome::Step(final(self).abs()),
            r matches Err(f) ==> spec_exec_op(old(self).strings_view(), old(self).labels_view(), ByteCodeOp::Pop, old(self).abs()) == StepOutcome::Fault(f),
    {
        let ghost s0 = self.stack@;
        let v = match self.stack.pop() {
            Some(v) => v,
            None => return Err(VmFault::StackUnderflow),
        };
        proof {
            lemma_vals_ok_drop_last(s0, self.heap.len());
        }
        match v {
            SwindleValue::HeapString(u) => {
                proof {
                    lemma_count_member(s0, s0.len() - 1, u);
                }
                self.heap.drop(u);
            },
            _ => {},
        }
        proof {
            let so = spec_exec_op(
                old(self).strings_view(),
                old(self).labels_view(),
                ByteCodeOp::Pop,
                old(self).abs(),
            );
            match so {
                StepOutcome::Step(st2) => {
                    assert(self.abs() =~= st2);
                },
                StepOutcome::Fault(_) => {},
            }
        }
        Ok(())
    }

    fn op_unary(&mut self, op: ByteCodeOp) -> (r: Result<(), VmFault>)
        requires
            old(self).inv(),
            op is Negate || op is Not,
        ensures
            r is Ok ==> final(self).inv() && final(self).bytecode@ == old(self).bytecode@ && final(self).idx == old(self).idx,
            r is Ok ==> final(self).labels@ == old(self).labels@ && final(self).strings@ == old(self).strings@,
            r is Ok ==> spec_exec_op(old(self).strings_view(), old(self).labels_view(), op, old(self).abs()) == StepOutcome::Step(final(self).abs()),
            r matches Err(f) ==> spec_exec_op(old(self).strings_view(), old(self).labels_view(), op, old(self).abs()) == StepOutcome::Fault(f),
    {
        let ghost s0 = self.stack@;
        let a = match self.stack.pop() {
            Some(v) => v,
            None => return Err(VmFault::StackUnderflow),
        };
        let v = match (op, a) {
            (ByteCodeOp::Negate, SwindleValue::Int(x)) => SwindleValue::Int(
                if x == i64::MIN {
                    x
                } else {
                    -x
                },
            ),
            (ByteCodeOp::Not, SwindleValue::Bool(b)) => SwindleValue::Bool(!b),
            _ => { return Err(VmFault::TypeMismatch) },
        };
        let ghost s1 = s0.drop_last();
        proof {
            lemma_vals_ok_drop_last(s0, self.heap.len());
            lemma_vals_ok_push(s1, v, self.heap.len());
        }
        self.stack.push(v);
        proof {
            assert forall|j: int| 0 <= j < self.heap.len() implies (match #[trigger] self.heap.record(j) {
                Some(p) => p.1 == count_refs(self.stack@, j) + count_refs(self.variables@, j),
                None => count_refs(self.stack@, j) + count_refs(self.variables@, j) == 0,
            }) by {
                lemma_count_push(s1, v, j);
                assert(count_refs(s0, j) == count_refs(s1, j) + ref_one(a, j));
                assert(ref_one(a, j) == 0);
                assert(ref_one(v, j) == 0);
            }
            assert(self.inv());
        }
        proof {
            let so = spec_exec_op(
                old(self).strings_view(),
                old(self).labels_view(),
                op,
                old(self).abs(),
            );
            match so {
                StepOutcome::Step(st2) => {
                    assert(self.abs() =~= st2);
                },
                StepOutcome::Fault(_) => {},
            }
        }
        Ok(())
    }

    fn op_binop(&mut self, op: ByteCodeOp) -> (r: Result<(), VmFault>)
        requires
            old(self).inv(),
            op is Product || op is Quotient || op is Remainder || op is Sum || op is Difference
                || op is Leq || op is Lt || op is Eq || op is Gt || op is Geq || op is And
                || op is Or,
        ensures
            r is Ok ==> final(self).inv() && final(self).bytecode@ == old(self).bytecode@ && final(self).idx == old(self).idx,
            r is Ok ==> final(self).labels@ == old(self).labels@ && final(self).strings@ == old(self).strings@,
            r is Ok ==> spec_exec_op(old(self).strings_view(), old(self).labels_view(), op, old(self).abs()) == StepOutcome::Step(final(self).abs()),
            r matches Err(f) ==> spec_exec_op(old(self).strings_view(), old(self).labels_view(), op, old(self).abs()) == StepOutcome::Fault(f),
    {
        let ghost s0 = self.stack@;
        let a = match self.stack.pop() {
            Some(v) => v,
            None => return Err(VmFault::StackUnderflow),
        };
        let b = match self.stack.pop() {
            Some(v) => v,
            None => return Err(VmFault::StackUnderflow),
        };
        match a {
            SwindleValue::HeapString(_) => return Err(VmFault::TypeMismatch),
            _ => {},
        }
        match b {
            SwindleValue::HeapString(_) => return Err(VmFault::TypeMismatch),
            _ => {},
        }
        let v = match scalar_binop_value(op, a, b) {
            Ok(v) => v,
            Err(f) => return Err(f),
        };
        let ghost s1 = s0.drop_last();
        let ghost s2 = s1.drop_last();
        proof {
            lemma_vals_ok_drop_last(s0, self.heap.len());
            lemma_vals_ok_drop_last(s1, self.heap.len());
            lemma_vals_ok_push(s2, v, self.heap.len());
        }
        self.stack.push(v);
        proof {
            assert forall|j: int| 0 <= j < self.heap.len() implies (match #[trigger] self.heap.record(j) {
                Some(p) => p.1 == count_refs(self.stack@, j) + count_refs(self.variables@, j),
                None => count_refs(self.stack@, j) + count_refs(self.variables@, j) == 0,
            }) by {
                lemma_count_push(s2, v, j);
                assert(count_refs(s0, j) == count_refs(s1, j) + ref_one(a, j));
                assert(count_refs(s1, j) == count_refs(s2, j) + ref_one(b, j));
                assert(ref_one(a, j) == 0);
                assert(ref_one(b, j) == 0);
                assert(ref_one(v, j) == 0);
            }
            assert(self.inv());
        }
        proof {
            let so = spec_exec_op(
                old(self).strings_view(),
                old(self).labels_view(),
                op,
                old(self).abs(),
            );
            match so {
                StepOutcome::Step(st2) => {
                    assert(self.abs() =~= st2);
                },
                StepOutcome::Fault(_) => {},
            }
        }
        Ok(())
    }

    fn op_string_eq(&mut self) -> (r: Result<(), VmFault>)
        requires
            old(self).inv(),
        ensures
            r is Ok ==> final(self).inv() && final(self).bytecode@ == old(self).bytecode@ && final(self).idx == old(self).idx,
            r is Ok ==> final(self).labels@ == old(self).labels@ && final(self).strings@ == old(self).strings@,
            r is Ok ==> spec_exec_op(old(self).strings_view(), old(self).labels_view(), ByteCodeOp::StringEq, old(self).abs()) == StepOutcome::Step(final(self).abs()),
            r matches Err(f) ==> spec_exec_op(old(self).strings_view(), old(self).labels_view(), ByteCodeOp::StringEq, old(self).abs()) == StepOutcome::Fault(f),
    {
        let ghost s0 = self.stack@;
        let a = match self.stack.pop() {
            Some(v) => v,
            None => return Err(VmFault::StackUnderflow),
        };
        let b = match self.stack.pop() {
            Some(v) => v,
            None => return Err(VmFault::StackUnderflow),
        };
        let eq: bool;
        {
            let sa: &String = match a {
                SwindleValue::ConstString(u) => {
                    if u >= self.strings.len() {
                        return Err(VmFault::BadStringConst);
                    }
                    &self.strings[u]
                },
                SwindleValue::HeapString(u) => match self.heap.get(u) {
                    Some(s) => s,
                    None => return Err(VmFault::MissingHeapRecord),
                },
                _ => return Err(VmFault::TypeMismatch),
            };
            let sb: &String = match b {
                SwindleValue::ConstString(u) => {
                    if u >= self.strings.len() {
                        return Err(VmFault::BadStringConst);
                    }
                    &self.strings[u]
                },
                SwindleValue::HeapString(u) => match self.heap.get(u) {
                    Some(s) => s,
                    None => return Err(VmFault::MissingHeapRecord),
                },
                _ => return Err(VmFault::TypeMismatch),
            };
            proof {
                assert(string_content(old(self).strings_view(), old(self).abs().records, a)
                    == Ok::<Seq<char>, VmFault>(sa@));
                assert(string_content(old(self).strings_view(), old(self).abs().records, b)
                    == Ok::<Seq<char>, VmFault>(sb@));
            }
            eq = *sa == *sb;
        }
        let ghost s1 = s0.drop_last();
        let ghost s2 = s1.drop_last();
        proof {
            lemma_vals_ok_drop_last(s0, self.heap.len());
            lemma_vals_ok_drop_last(s1, self.heap.len());
            match a {
                SwindleValue::HeapString(u) => lemma_count_member(s0, s0.len() - 1, u),
                _ => {},
            }
            match b {
                SwindleValue::HeapString(u) => lemma_count_member(s1, s1.len() - 1, u),
                _ => {},
            }
            assert forall|j: int| count_refs(s0, j) == count_refs(s2, j) + ref_one(a, j) + ref_one(
                b,
                j,
            ) by {
                assert(count_refs(s0, j) == count_refs(s1, j) + ref_one(a, j));
                assert(count_refs(s1, j) == count_refs(s2, j) + ref_one(b, j));
            }
        }
        match a {
            SwindleValue::HeapString(u) => self.heap.drop(u),
            _ => {},
        }
        match b {
            SwindleValue::HeapString(u) => self.heap.drop(u),
            _ => {},
        }
        proof {
            lemma_vals_ok_push(s2, SwindleValue::Bool(eq), self.heap.len());
        }
        self.stack.push(SwindleValue::Bool(eq));
        proof {
            assert forall|j: int| 0 <= j < self.heap.len() implies (match #[trigger] self.heap.record(j) {
                Some(p) => p.1 == count_refs(self.stack@, j) + count_refs(self.variables@, j),
                None => count_refs(self.stack@, j) + count_refs(self.variables@, j) == 0,
            }) by {
                lemma_count_push(s2, SwindleValue::Bool(eq), j);
            }
            assert(self.inv());
        }
        proof {
            let so = spec_exec_op(
                old(self).strings_view(),
                old(self).labels_view(),
                ByteCodeOp::StringEq,
                old(self).abs(),
            );
            match so {
                StepOutcome::Step(st2) => {
                    assert(self.abs() =~= st2);
                },
                StepOutcome::Fault(_) => {},
            }
        }
        Ok(())
    }

    fn op_append(&mut self) -> (r: Result<(), VmFault>)
        requires
            old(self).inv(),
        ensures
            r is Ok ==> final(self).inv() && final(self).bytecode@ == old(self).bytecode@ && final(self).idx == old(self).idx,
            r is Ok ==> final(self).labels@ == old(self).labels@ && final(self).strings@ == old(self).strings@,
            r is Ok ==> spec_exec_op(old(self).strings_view(), old(self).labels_view(), ByteCodeOp::Append, old(self).abs()) == StepOutcome::Step(final(self).abs()),
            r matches Err(f) ==> spec_exec_op(old(self).strings_view(), old(self).labels_view(), ByteCodeOp::Append, old(self).abs()) == StepOutcome::Fault(f),
    {
        let ghost s0 = self.stack@;
        let a = match self.stack.pop() {
            Some(v) => v,
            None => return Err(VmFault::StackUnderflow),
        };
        let b = match self.stack.pop() {
            Some(v) => v,
            None => return Err(VmFault::StackUnderflow),
        };
        let mut joined: String;
        {
            let sa: &String = match a {
                SwindleValue::ConstString(u) => {
                    if u >= self.strings.len() {
                        return Err(VmFault::BadStringConst);
                    }
                    &self.strings[u]
                },
                SwindleValue::HeapString(u) => match self.heap.get(u) {
                    Some(s) => s,
                    None => return Err(VmFault::MissingHeapRecord),
                },
                _ => return Err(VmFault::TypeMismatch),
            };
            proof {
                assert(string_content(old(self).strings_view(), old(self).abs().records, a)
                    == Ok::<Seq<char>, VmFault>(sa@));
            }
            joined = sa.clone();
        }
        {
            let sb: &String = match b {
                SwindleValue::ConstString(u) => {
                    if u >= self.strings.len() {
                        return Err(VmFault::BadStringConst);
                    }
                    &self.strings[u]
                },
                SwindleValue::HeapString(u) => match self.heap.get(u) {
                    Some(s) => s,
                    None => return Err(VmFault::MissingHeapRecord),
                },
                _ => return Err(VmFault::TypeMismatch),
            };
            proof {
                assert(string_content(old(self).strings_view(), old(self).abs().records, b)
                    == Ok::<Seq<char>, VmFault>(sb@));
            }
            joined.append(sb.as_str());
        }
        let ghost hp0 = self.heap;
        let ghost vars0 = self.variables@;
        let ghost s1 = s0.drop_last();
        let ghost s2 = s1.drop_last();
        proof {
            lemma_vals_ok_drop_last(s0, self.heap.len());
            lemma_vals_ok_drop_last(s1, self.heap.len());
            match a {
                SwindleValue::HeapString(u) => lemma_count_member(s0, s0.len() - 1, u),
                _ => {},
            }
            match b {
                SwindleValue::HeapString(u) => lemma_count_member(s1, s1.len() - 1, u),
                _ => {},
            }
            assert forall|j: int| count_refs(s0, j) == count_refs(s2, j) + ref_one(a, j) + ref_one(
                b,
                j,
            ) by {
                assert(count_refs(s0, j) == count_refs(s1, j) + ref_one(a, j));
                assert(count_refs(s1, j) == count_refs(s2, j) + ref_one(b, j));
            }
        }
        match a {
            SwindleValue::HeapString(u) => self.heap.drop(u),
            _ => {},
        }
        match b {
            SwindleValue::HeapString(u) => self.heap.drop(u),
            _ => {},
        }
        let ghost hp1 = self.heap;
        let id = self.heap.allocate(joined);
        proof {
            // the chosen cell was dead just before the allocation, so no
            // root outside the two consumed operands referenced it
            assert(count_refs(s2, id as int) + count_refs(vars0, id as int) == 0) by {
                if (id as int) < hp0.len() {
                    assert(hp1.record(id as int) is None);
                } else {
                    assert forall|k: int|
                        0 <= k < s2.len() implies ref_one(#[trigger] s2[k], id as int) == 0 by {
                        assert(s2[k] == s0[k]);
                    }
                    lemma_count_no_refs(s2, id as int);
                    assert forall|k: int|
                        0 <= k < vars0.len() implies ref_one(#[trigger] vars0[k], id as int)
                        == 0 by {}
                    lemma_count_no_refs(vars0, id as int);
                }
            };
            lemma_vals_ok_grow(s2, hp0.len(), self.heap.len());
            lemma_vals_ok_grow(self.variables@, hp0.len(), self.heap.len());
            lemma_vals_ok_push(s2, SwindleValue::HeapString(id), self.heap.len());
        }
        self.stack.push(SwindleValue::HeapString(id));
        proof {
            assert forall|j: int| 0 <= j < self.heap.len() implies (match #[trigger] self.heap.record(j) {
                Some(p) => p.1 == count_refs(self.stack@, j) + count_refs(self.variables@, j),
                None => count_refs(self.stack@, j) + count_refs(self.variables@, j) == 0,
            }) by {
                lemma_count_push(s2, SwindleValue::HeapString(id), j);
                assert(count_refs(s0, j) == count_refs(s1, j) + ref_one(a, j));
                assert(count_refs(s1, j) == count_refs(s2, j) + ref_one(b, j));
                if j >= hp0.len() {
                    assert forall|k: int|
                        0 <= k < s0.len() implies ref_one(#[trigger] s0[k], j) == 0 by {}
                    lemma_count_no_refs(s0, j);
                    assert forall|k: int|
                        0 <= k < self.variables@.len() implies ref_one(
                            #[trigger] self.variables@[k],
                            j,
                        ) == 0 by {}
                    lemma_count_no_refs(self.variables@, j);
                }
            }
            assert(self.inv());
        }
        proof {
            let so = spec_exec_op(
                old(self).strings_view(),
                old(self).labels_view(),
                ByteCodeOp::Append,
                old(self).abs(),
            );
            match so {
                StepOutcome::Step(st2) => {
                    assert(self.abs() =~= st2);
                },
                StepOutcome::Fault(_) => {},
            }
        }
        Ok(())
    }

    fn op_variable(&mut self, u: usize) -> (r: Result<(), VmFault>)
        requires
            old(self).inv(),
        ensures
            r is Ok ==> final(self).inv() && final(self).bytecode@ == old(self).bytecode@ && final(self).idx == old(self).idx,
            r is Ok ==> final(self).labels@ == old(self).labels@ && final(self).strings@ == old(self).strings@,
            r is Ok ==> spec_exec_op(old(self).strings_view(), old(self).labels_view(), ByteCodeOp::Variable(u), old(self).abs()) == StepOutcome::Step(final(self).abs()),
            r matches Err(f) ==> spec_exec_op(old(self).strings_view(), old(self).labels_view(), ByteCodeOp::Variable(u), old(self).abs()) == StepOutcome::Fault(f),
    {
        if u >= self.variables.len() {
            return Err(VmFault::BadSlot);
        }
        let v = self.variables[u];
        let ghost s0 = self.stack@;
        proof {
            lemma_count_push_all(s0, v);
            lemma_vals_ok_push(s0, v, self.heap.len());
        }
        self.stack.push(v);
        match v {
            SwindleValue::HeapString(id) => {
                proof {
                    lemma_count_member(self.variables@, u as int, id);
                }
                if !self.heap.access(id) {
                    return Err(VmFault::RefCountOverflow);
                }
            },
            _ => {},
        }
        proof {
            let so = spec_exec_op(
                old(self).strings_view(),
                old(self).labels_view(),
                ByteCodeOp::Variable(u),
                old(self).abs(),
            );
            match so {
                StepOutcome::Step(st2) => {
                    assert(self.abs() =~= st2);
                },
                StepOutcome::Fault(_) => {},
            }
        }
        Ok(())
    }

    fn op_assign(&mut self, u: usize, keep_on_stack: bool) -> (r: Result<(), VmFault>)
        requires
            old(self).inv(),
        ensures
            r is Ok ==> final(self).inv() && final(self).bytecode@ == old(self).bytecode@ && final(self).idx == old(self).idx,
            r is Ok ==> final(self).labels@ == old(self).labels@ && final(self).strings@ == old(self).strings@,
            r is Ok ==> spec_exec_op(old(self).strings_view(), old(self).labels_view(), (if keep_on_stack { ByteCodeOp::Assign(u) } else { ByteCodeOp::Declare(u) }), old(self).abs()) == StepOutcome::Step(final(self).abs()),
            r matches Err(f) ==> spec_exec_op(old(self).strings_view(), old(self).labels_view(), (if keep_on_stack { ByteCodeOp::Assign(u) } else { ByteCodeOp::Declare(u) }), old(self).abs()) == StepOutcome::Fault(f),
    {
        if u >= self.variables.len() {
            return Err(VmFault::BadSlot);
        }
        let ghost s0 = self.stack@;
        let v = match self.stack.pop() {
            Some(v) => v,
            None => return Err(VmFault::StackUnderflow),
        };
        let old_v = self.variables[u];
        let ghost v0 = self.variables@;
        self.variables.set(u, v);
        proof {
            lemma_vals_ok_drop_last(s0, self.heap.len());
            lemma_vals_ok_update(v0, u as int, v, self.heap.len());
            lemma_count_update_all(v0, u as int, v);
            match old_v {
                SwindleValue::HeapString(i) => {
                    lemma_count_update(v0, u as int, v, i as int);
                    lemma_count_member(v0, u as int, i);
                },
                _ => {},
            }
        }
        match old_v {
            SwindleValue::HeapString(i) => self.heap.drop(i),
            _ => {},
        }
        if keep_on_stack {
            let ghost s1 = s0.drop_last();
            proof {
                lemma_count_push_all(s1, v);
                lemma_vals_ok_push(s1, v, self.heap.len());
            }
            self.stack.push(v);
            match v {
                SwindleValue::HeapString(i) => {
                    proof {
                        lemma_count_member(self.variables@, u as int, i);
                    }
                    if !self.heap.access(i) {
                        return Err(VmFault::RefCountOverflow);
                    }
                },
                _ => {},
            }
        }
        proof {
            let so = spec_exec_op(
                old(self).strings_view(),
                old(self).labels_view(),
                (if keep_on_stack { ByteCodeOp::Assign(u) } else { ByteCodeOp::Declare(u) }),
                old(self).abs(),
            );
            match so {
                StepOutcome::Step(st2) => {
                    assert(self.abs() =~= st2);
                },
                StepOutcome::Fault(_) => {},
            }
        }
        Ok(())
    }

    fn op_write(&mut self, newline: bool) -> (r: Result<(), VmFault>)
        requires
            old(self).inv(),
        ensures
            r is Ok ==> final(self).inv() && final(self).bytecode@ == old(self).bytecode@ && final(self).idx == old(self).idx,
            r is Ok ==> final(self).labels@ == old(self).labels@ && final(self).strings@ == old(self).strings@,
            r is Ok ==> spec_exec_op(old(self).strings_view(), old(self).labels_view(), (if newline { ByteCodeOp::Writeln } else { ByteCodeOp::Write }), old(self).abs()) == StepOutcome::Step(final(self).abs()),
            r matches Err(f) ==> spec_exec_op(old(self).strings_view(), old(self).labels_view(), (if newline { ByteCodeOp::Writeln } else { ByteCodeOp::Write }), old(self).abs()) == StepOutcome::Fault(f),
    {
        let ghost s0 = self.stack@;
        let v = match self.stack.pop() {
            Some(v) => v,
            None => return Err(VmFault::StackUnderflow),
        };
        let shown = match self.display(v) {
            Ok(s) => s,
            Err(f) => return Err(f),
        };
        self.output.append(shown.as_str());
        if newline {
            self.output.push('\n');
        }
        proof {
            lemma_vals_ok_drop_last(s0, self.heap.len());
        }
        match v {
            SwindleValue::HeapString(u) => {
                proof {
                    lemma_count_member(s0, s0.len() - 1, u);
                }
                self.heap.drop(u);
            },
            _ => {},
        }
        proof {
            let so = spec_exec_op(
                old(self).strings_view(),
                old(self).labels_view(),
                (if newline { ByteCodeOp::Writeln } else { ByteCodeOp::Write }),
                old(self).abs(),
            );
            match so {
                StepOutcome::Step(st2) => {
                    assert(self.abs() =~= st2);
                },
                StepOutcome::Fault(_) => {},
            }
        }
        Ok(())
    }

    fn op_jump(&mut self, l: usize) -> (r: Result<(), VmFault>)
        requires
            old(self).inv(),
        ensures
            r is Ok ==> final(self).inv() && final(self).bytecode@ == old(self).bytecode@ && final(self).idx < final(self).bytecode@.len(),
            r is Ok ==> final(self).labels@ == old(self).labels@ && final(self).strings@ == old(self).strings@,
            r is Ok ==> spec_exec_op(old(self).strings_view(), old(self).labels_view(), ByteCodeOp::Jump(l), old(self).abs()) == StepOutcome::Step(final(self).abs()),
            r matches Err(f) ==> spec_exec_op(old(self).strings_view(), old(self).labels_view(), ByteCodeOp::Jump(l), old(self).abs()) == StepOutcome::Fault(f),
    {
        if l >= self.labels.len() {
            return Err(VmFault::BadLabel);
        }
        match self.labels[l] {
            Some(p) => {
                self.idx = p;
                proof {
            let so = spec_exec_op(
                old(self).strings_view(),
                old(self).labels_view(),
                ByteCodeOp::Jump(l),
                old(self).abs(),
            );
            match so {
                StepOutcome::Step(st2) => {
                    assert(self.abs() =~= st2);
                },
                StepOutcome::Fault(_) => {},
            }
        }
        Ok(())
            },
            None => Err(VmFault::BadLabel),
        }
    }

    fn op_jump_if_false(&mut self, l: usize) -> (r: Result<(), VmFault>)
        requires
            old(self).inv(),
        ensures
            r is Ok ==> final(self).inv() && final(self).bytecode@ == old(self).bytecode@ && (final(self).idx == old(self).idx || final(self).idx < final(self).bytecode@.len()),
            r is Ok ==> final(self).labels@ == old(self).labels@ && final(self).strings@ == old(self).strings@,
            r is Ok ==> spec_exec_op(old(self).strings_view(), old(self).labels_view(), ByteCodeOp::JumpIfFalse(l), old(self).abs()) == StepOutcome::Step(final(self).abs()),
            r matches Err(f) ==> spec_exec_op(old(self).strings_view(), old(self).labels_view(), ByteCodeOp::JumpIfFalse(l), old(self).abs()) == StepOutcome::Fault(f),
    {
        let ghost s0 = self.stack@;
        let v = match self.stack.pop() {
            Some(v) => v,
            None => return Err(VmFault::StackUnderflow),
        };
        proof {
            lemma_vals_ok_drop_last(s0, self.heap.len());
        }
        let res = match v {
            SwindleValue::Bool(b) => {
                if !b {
                    self.op_jump(l)
                } else {
                    Ok(())
                }
            },
            _ => Err(VmFault::TypeMismatch),
        };
        proof {
            let so = spec_exec_op(
                old(self).strings_view(),
                old(self).labels_view(),
                ByteCodeOp::JumpIfFalse(l),
                old(self).abs(),
            );
            if res is Ok {
                match so {
                    StepOutcome::Step(st2) => {
                        assert(self.abs() =~= st2);
                    },
                    StepOutcome::Fault(_) => {},
                }
            }
        }
        res
    }

    fn exec_op(&mut self, op: ByteCodeOp) -> (r: Result<(), VmFault>)
        requires
            old(self).inv(),
        ensures
            r is Ok ==> final(self).inv() && final(self).bytecode@ == old(self).bytecode@ && (final(self).idx == old(self).idx || final(self).idx < final(self).bytecode@.len()),
            r is Ok ==> final(self).labels@ == old(self).labels@ && final(self).strings@ == old(self).strings@,
            r is Ok ==> spec_exec_op(old(self).strings_view(), old(self).labels_view(), op, old(self).abs()) == StepOutcome::Step(final(self).abs()),
            r matches Err(f) ==> spec_exec_op(old(self).strings_view(), old(self).labels_view(), op, old(self).abs()) == StepOutcome::Fault(f),
    {
        match op {
            ByteCodeOp::IntConst(n) => {
                self.push_scalar(SwindleValue::Int(n));
                Ok(())
            },
            ByteCodeOp::StringConst(u) => self.op_string_const(u),
            ByteCodeOp::BoolConst(b) => {
                self.push_scalar(SwindleValue::Bool(b));
                Ok(())
            },
            ByteCodeOp::Unit => {
                self.push_scalar(SwindleValue::Unit);
                Ok(())
            },
            ByteCodeOp::Variable(u) => self.op_variable(u),
            ByteCodeOp::Pop => self.op_pop(),
            ByteCodeOp::Negate => self.op_unary(op),
            ByteCodeOp::Not => self.op_unary(op),
            ByteCodeOp::Product => self.op_binop(op),
            ByteCodeOp::Quotient => self.op_binop(op),
            ByteCodeOp::Remainder => self.op_binop(op),
            ByteCodeOp::Sum => self.op_binop(op),
            ByteCodeOp::Difference => self.op_binop(op),
            ByteCodeOp::Leq => self.op_binop(op),
            ByteCodeOp::Lt => self.op_binop(op),
            ByteCodeOp::Eq => self.op_binop(op),
            ByteCodeOp::Gt => self.op_binop(op),
            ByteCodeOp::Geq => self.op_binop(op),
            ByteCodeOp::StringEq => self.op_string_eq(),
            ByteCodeOp::And => self.op_binop(op),
            ByteCodeOp::Or => self.op_binop(op),
            ByteCodeOp::Append => self.op_append(),
            ByteCodeOp::Assign(u) => self.op_assign(u, true),
            ByteCodeOp::Declare(u) => self.op_assign(u, false),
            ByteCodeOp::Write => self.op_write(false),
            ByteCodeOp::Writeln => self.op_write(true),
            ByteCodeOp::Label(_) => Ok(()),
            ByteCodeOp::JumpIfFalse(l) => self.op_jump_if_false(l),
            ByteCodeOp::Jump(l) => self.op_jump(l),
        }
    }

    /// Fetch-dispatch-advance until the instruction pointer runs past the
    /// end of the code, an internal inconsistency aborts the run, or
    /// `max_steps` instructions have been executed (`Ok(true)` means the
    /// program halted; `Ok(false)` that the budget ran out first, with the
    /// machine left consistent, so the run can be continued). However it
    /// ends, the reference-counting discipline has been kept at every
    /// step: each push, store and discard of a heap string was matched by
    /// exactly the counting the discipline demands.
    pub fn run(&mut self, max_steps: u64) -> (r: Result<bool, VmFault>)
        requires
            old(self).inv(),
        ensures
            r is Ok ==> final(self).inv(),
            r is Ok ==> final(self).code_view() == old(self).code_view() && final(self).labels_view() == old(self).labels_view() && final(self).strings_view() == old(self).strings_view(),
            match r {
                Ok(halted) => if halted {
                    spec_run(
                        old(self).code_view(),
                        old(self).labels_view(),
                        old(self).strings_view(),
                        old(self).abs(),
                        max_steps as nat,
                    ) == RunOutcome::Halted(final(self).abs())
                } else {
                    spec_run(
                        old(self).code_view(),
                        old(self).labels_view(),
                        old(self).strings_view(),
                        old(self).abs(),
                        max_steps as nat,
                    ) == RunOutcome::Paused(final(self).abs())
                },
                Err(f) => spec_run(
                    old(self).code_view(),
                    old(self).labels_view(),
                    old(self).strings_view(),
                    old(self).abs(),
                    max_steps as nat,
                ) == RunOutcome::Faulted(f),
            },
    {
        let mut steps: u64 = 0;
        while steps < max_steps
            invariant
                self.inv(),
                steps <= max_steps,
                self.code_view() == old(self).code_view(),
                self.labels_view() == old(self).labels_view(),
                self.strings_view() == old(self).strings_view(),
                spec_run(
                    old(self).code_view(),
                    old(self).labels_view(),
                    old(self).strings_view(),
                    old(self).abs(),
                    max_steps as nat,
                ) == spec_run(
                    old(self).code_view(),
                    old(self).labels_view(),
                    old(self).strings_view(),
                    self.abs(),
                    (max_steps - steps) as nat,
                ),
            decreases max_steps - steps,
        {
            if self.idx >= self.bytecode.len() {
                proof {
                    assert(spec_run(
                        old(self).code_view(),
                        old(self).labels_view(),
                        old(self).strings_view(),
                        self.abs(),
                        (max_steps - steps) as nat,
                    ) == RunOutcome::Halted(self.abs()));
                }
                return Ok(true);
            }
            let ghost pre = self.abs();
            let op = self.bytecode[self.idx];
            match self.exec_op(op) {
                Ok(()) => {},
                Err(f) => {
                    proof {
                        assert(spec_run(
                            old(self).code_view(),
                            old(self).labels_view(),
                            old(self).strings_view(),
                            pre,
                            (max_steps - steps) as nat,
                        ) == RunOutcome::Faulted(f));
                    }
                    return Err(f);
                },
            }
            let ghost mid = self.abs();
            self.idx = self.idx + 1;
            steps = steps + 1;
            proof {
                assert(self.abs() =~= (MachineState { idx: mid.idx + 1, ..mid }));
                assert(spec_run(
                    old(self).code_view(),
                    old(self).labels_view(),
                    old(self).strings_view(),
                    pre,
                    (max_steps - (steps - 1)) as nat,
                ) == spec_run(
                    old(self).code_view(),
                    old(self).labels_view(),
                    old(self).strings_view(),
                    self.abs(),
                    (max_steps - steps) as nat,
                ));
            }
        }
        Ok(self.idx >= self.bytecode.len())
    }
}

/// The exact value an arithmetic, comparison or logical instruction
/// produces from two operands, or nothing when the operands' runtime tags
/// do not fit the instruction. Addition, subtraction and multiplication
/// wrap on 64-bit overflow; quotient and remainder are undefined for a
/// zero divisor and for the one overflowing division.
pub open spec fn scalar_binop_spec(op: ByteCodeOp, a: SwindleValue, b: SwindleValue) -> Option<
    SwindleValue,
> {
    match (op, a, b) {
        (ByteCodeOp::Product, SwindleValue::Int(x), SwindleValue::Int(y)) => Some(
            SwindleValue::Int(x.wrapping_mul(y)),
        ),
        (ByteCodeOp::Quotient, SwindleValue::Int(x), SwindleValue::Int(y)) => match x.checked_div(
            y,
        ) {
            Some(z) => Some(SwindleValue::Int(z)),
            None => None,
        },
        (ByteCodeOp::Remainder, SwindleValue::Int(x), SwindleValue::Int(y)) => match x.checked_rem(
            y,
        ) {
            Some(z) => Some(SwindleValue::Int(z)),
            None => None,
        },
        (ByteCodeOp::Sum, SwindleValue::Int(x), SwindleValue::Int(y)) => Some(
            SwindleValue::Int(x.wrapping_add(y)),
        ),
        (ByteCodeOp::Difference, SwindleValue::Int(x), SwindleValue::Int(y)) => Some(
            SwindleValue::Int(x.wrapping_sub(y)),
        ),
        (ByteCodeOp::Leq, SwindleValue::Int(x), SwindleValue::Int(y)) => Some(
            SwindleValue::Bool(x <= y),
        ),
        (ByteCodeOp::Lt, SwindleValue::Int(x), SwindleValue::Int(y)) => Some(
            SwindleValue::Bool(x < y),
        ),
        (ByteCodeOp::Gt, SwindleValue::Int(x), SwindleValue::Int(y)) => Some(
            SwindleValue::Bool(x > y),
        ),
        (ByteCodeOp::Geq, SwindleValue::Int(x), SwindleValue::Int(y)) => Some(
            SwindleValue::Bool(x >= y),
        ),
        (ByteCodeOp::Eq, SwindleValue::Int(x), SwindleValue::Int(y)) => Some(
            SwindleValue::Bool(x == y),
        ),
        (ByteCodeOp::Eq, SwindleValue::Bool(x), SwindleValue::Bool(y)) => Some(
            SwindleValue::Bool(x == y),
        ),
        (ByteCodeOp::Eq, SwindleValue::Unit, SwindleValue::Unit) => Some(SwindleValue::Bool(true)),
        (ByteCodeOp::And, SwindleValue::Bool(x), SwindleValue::Bool(y)) => Some(
            SwindleValue::Bool(x && y),
        ),
        (ByteCodeOp::Or, SwindleValue::Bool(x), SwindleValue::Bool(y)) => Some(
            SwindleValue::Bool(x || y),
        ),
        _ => None,
    }
}

/// The same instruction effects as `scalar_binop_spec`, with the fault
/// each rejected operand pair stops on: a zero divisor, the one
/// overflowing division, or operands whose tags do not fit.
pub open spec fn scalar_binop_result(op: ByteCodeOp, a: SwindleValue, b: SwindleValue) -> Result<
    SwindleValue,
    VmFault,
> {
    match scalar_binop_spec(op, a, b) {
        Some(v) => Ok(v),
        None => match (op, a, b) {
            (ByteCodeOp::Quotient, SwindleValue::Int(x), SwindleValue::Int(y)) => Err(
                if y == 0 {
                    VmFault::DivisionByZero
                } else {
                    VmFault::ArithmeticOverflow
                },
            ),
            (ByteCodeOp::Remainder, SwindleValue::Int(x), SwindleValue::Int(y)) => Err(
                if y == 0 {
                    VmFault::DivisionByZero
                } else {
                    VmFault::ArithmeticOverflow
                },
            ),
            _ => Err(VmFault::TypeMismatch),
        },
    }
}

/// Computes what `scalar_binop_result` says; the result is never a string.
fn scalar_binop_value(op: ByteCodeOp, a: SwindleValue, b: SwindleValue) -> (r: Result<
    SwindleValue,
    VmFault,
>)
    ensures
        r == scalar_binop_result(op, a, b),
        (r is Ok) == (scalar_binop_spec(op, a, b) is Some),
        r matches Ok(v) ==> scalar_binop_spec(op, a, b) == Some(v) && !(v is HeapString) && !(
        v is ConstString),
{
    match (op, a, b) {
        (ByteCodeOp::Product, SwindleValue::Int(x), SwindleValue::Int(y)) => Ok(
            SwindleValue::Int(x.wrapping_mul(y)),
        ),
        (ByteCodeOp::Quotient, SwindleValue::Int(x), SwindleValue::Int(y)) => match x.checked_div(
            y,
        ) {
            Some(z) => Ok(SwindleValue::Int(z)),
            None => Err(
                if y == 0 {
                    VmFault::DivisionByZero
                } else {
                    VmFault::ArithmeticOverflow
                },
            ),
        },
        (ByteCodeOp::Remainder, SwindleValue::Int(x), SwindleValue::Int(y)) => match x.checked_rem(
            y,
        ) {
            Some(z) => Ok(SwindleValue::Int(z)),
            None => Err(
                if y == 0 {
                    VmFault::DivisionByZero
                } else {
                    VmFault::ArithmeticOverflow
                },
            ),
        },
        (ByteCodeOp::Sum, SwindleValue::Int(x), SwindleValue::Int(y)) => Ok(
            SwindleValue::Int(x.wrapping_add(y)),
        ),
        (ByteCodeOp::Difference, SwindleValue::Int(x), SwindleValue::Int(y)) => Ok(
            SwindleValue::Int(x.wrapping_sub(y)),
        ),
        (ByteCodeOp::Leq, SwindleValue::Int(x), SwindleValue::Int(y)) => Ok(
            SwindleValue::Bool(x <= y),
        ),
        (ByteCodeOp::Lt, SwindleValue::Int(x), SwindleValue::Int(y)) => Ok(
            SwindleValue::Bool(x < y),
        ),
        (ByteCodeOp::Gt, SwindleValue::Int(x), SwindleValue::Int(y)) => Ok(
            SwindleValue::Bool(x > y),
        ),
        (ByteCodeOp::Geq, SwindleValue::Int(x), SwindleValue::Int(y)) => Ok(
            SwindleValue::Bool(x >= y),
        ),
        (ByteCodeOp::Eq, SwindleValue::Int(x), SwindleValue::Int(y)) => Ok(
            SwindleValue::Bool(x == y),
        ),
        (ByteCodeOp::Eq, SwindleValue::Bool(x), SwindleValue::Bool(y)) => Ok(
            SwindleValue::Bool(x == y),
        ),
        (ByteCodeOp::Eq, SwindleValue::Unit, SwindleValue::Unit) => Ok(SwindleValue::Bool(true)),
        (ByteCodeOp::And, SwindleValue::Bool(x), SwindleValue::Bool(y)) => Ok(
            SwindleValue::Bool(x && y),
        ),
        (ByteCodeOp::Or, SwindleValue::Bool(x), SwindleValue::Bool(y)) => Ok(
            SwindleValue::Bool(x || y),
        ),
        _ => Err(VmFault::TypeMismatch),
    }
}

/// No roots, no records: a machine that obeys the counting discipline and
/// whose stack and slots hold no heap reference has an empty heap. Run on
/// a whole compiled program (all slots left holding scalars, stack drained
/// by the per-statement discard), this is the no-leak guarantee: every
/// increment was met by a decrement.
pub proof fn lemma_no_roots_no_records(vm: &VM)
    requires
        vm.inv(),
        vm.stack_view().len() == 0,
        forall|j: int|
            0 <= j < vm.vars_view().len() ==> !((#[trigger] vm.vars_view()[j]) is HeapString),
    ensures
        vm.heap_of().is_empty_spec(),
{
    assert forall|id: int| 0 <= id < vm.heap_of().len() implies vm.heap_of().record(id)
        is None by {
        assert forall|k: int|
            0 <= k < vm.vars_view().len() implies ref_one(#[trigger] vm.vars_view()[k], id)
            == 0 by {
            assert(!(vm.vars_view()[k] is HeapString));
        }
        lemma_count_no_refs(vm.vars_view(), id);
        assert(count_refs(vm.stack_view(), id) == 0);
    }
}

} // verus!
