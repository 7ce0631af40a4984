use vstd::prelude::*;

use crate::error::Error;

verus! {

/// Status reported by the engine after advancing a query by one step.
#[derive(Debug, Clone, Copy, PartialEq, Eq, Structural)]
pub enum StepStatus {
    /// The query is exhausted: every registered field has delivered all of
    /// its cells.
    Complete,
    /// More data remains beyond what was written this step.
    Incomplete,
}

/// One projected column of the logical result served by the engine.
///
/// A field's result is a sequence of cells. Each cell occupies
/// `cell_sizes[i]` bytes and the cells' bytes stand concatenated in `data`.
/// `cursor` counts the cells already delivered by earlier steps and
/// `byte_cursor` is the byte position they end at.
pub struct EngineField {
    pub name: String,
    pub cell_sizes: Vec<u64>,
    pub data: Vec<u8>,
    pub cursor: usize,
    pub byte_cursor: usize,
}

/// Total bytes of the first `n` cells.
pub open spec fn prefix_bytes(sizes: Seq<u64>, n: int) -> int
    decreases n,
{
    if n <= 0 {
        0
    } else {
        prefix_bytes(sizes, n - 1) + sizes[n - 1]
    }
}

/// Bytes occupied by `m` cells starting at cell `cursor`.
pub open spec fn span_bytes(sizes: Seq<u64>, cursor: int, m: int) -> int {
    prefix_bytes(sizes, cursor + m) - prefix_bytes(sizes, cursor)
}

/// Byte offsets, relative to the step's start, of `m` consecutive cells
/// starting at cell `cursor`.
pub open spec fn rel_offsets(sizes: Seq<u64>, cursor: int, m: int) -> Seq<u64> {
    Seq::new(m as nat, |j: int| span_bytes(sizes, cursor, j) as u64)
}

pub proof fn lemma_prefix_bytes_mono(sizes: Seq<u64>, a: int, b: int)
    requires
        0 <= a <= b,
    ensures
        prefix_bytes(sizes, a) <= prefix_bytes(sizes, b),
    decreases b,
{
    if a < b {
        lemma_prefix_bytes_mono(sizes, a, b - 1);
    }
}

impl EngineField {
    /// The cursors are consistent with the cell sizes, and the cell sizes
    /// account for exactly the bytes held in `data`.
    pub open spec fn wf(&self) -> bool {
        &&& self.cursor <= self.cell_sizes@.len()
        &&& self.byte_cursor == prefix_bytes(self.cell_sizes@, self.cursor as int)
        &&& prefix_bytes(self.cell_sizes@, self.cell_sizes@.len() as int) == self.data@.len()
    }

    /// Cells not yet delivered.
    pub open spec fn remaining(&self) -> int {
        self.cell_sizes@.len() - self.cursor
    }

    /// All cells have been delivered.
    pub open spec fn exhausted(&self) -> bool {
        self.cursor == self.cell_sizes@.len()
    }
}

/// One field's buffer registration for the upcoming step: the capacity in
/// bytes of the destination data buffer and, for a variable-length field, of
/// the destination offsets buffer.
#[derive(Debug, Clone, Copy)]
pub struct Registration {
    pub field_index: usize,
    pub data_capacity: u64,
    pub offsets_capacity: Option<u64>,
}

/// What the engine wrote for one registered field during the last step.
#[derive(Debug)]
pub struct StepOutput {
    pub field_index: usize,
    /// The bytes of the cells delivered this step.
    pub bytes: Vec<u8>,
    /// For a registration with an offsets buffer: the starting byte offset of
    /// each delivered cell, relative to the start of `bytes`.
    pub offsets: Option<Vec<u64>>,
}

pub open spec fn fields_wf(fields: Seq<EngineField>) -> bool {
    &&& forall|i: int| 0 <= i < fields.len() ==> (#[trigger] fields[i]).wf()
    &&& forall|i: int, j: int|
        0 <= i < fields.len() && 0 <= j < fields.len() && i != j ==> fields[i].name@
            != fields[j].name@
}

pub open spec fn regs_wf(fields: Seq<EngineField>, regs: Seq<Registration>) -> bool {
    &&& forall|j: int| 0 <= j < regs.len() ==> (#[trigger] regs[j]).field_index < fields.len()
    &&& forall|i: int, j: int|
        0 <= i < regs.len() && 0 <= j < regs.len() && i != j ==> regs[i].field_index
            != regs[j].field_index
}

pub open spec fn outputs_wf(fields: Seq<EngineField>, outs: Seq<StepOutput>) -> bool {
    &&& forall|j: int| 0 <= j < outs.len() ==> (#[trigger] outs[j]).field_index < fields.len()
    &&& forall|i: int, j: int|
        0 <= i < outs.len() && 0 <= j < outs.len() && i != j ==> outs[i].field_index
            != outs[j].field_index
}

/// Whether a field with view `name` exists.
pub open spec fn has_field(fields: Seq<EngineField>, name: Seq<char>) -> bool {
    exists|i: int| 0 <= i < fields.len() && (#[trigger] fields[i]).name@ == name
}

/// The index of the field with view `name` (unique under `fields_wf`).
pub open spec fn field_index_of(fields: Seq<EngineField>, name: Seq<char>) -> int {
    choose|i: int| 0 <= i < fields.len() && (#[trigger] fields[i]).name@ == name
}

/// Whether some registration targets field `idx`.
pub open spec fn has_reg(regs: Seq<Registration>, idx: int) -> bool {
    exists|j: int| 0 <= j < regs.len() && (#[trigger] regs[j]).field_index == idx
}

/// The position of the registration for field `idx` (unique under `regs_wf`).
pub open spec fn reg_pos(regs: Seq<Registration>, idx: int) -> int {
    choose|j: int| 0 <= j < regs.len() && (#[trigger] regs[j]).field_index == idx
}

/// When registration targets are pairwise distinct, any position holding a
/// registration for `idx` is the position `reg_pos` names.
pub proof fn lemma_reg_pos_unique(regs: Seq<Registration>, idx: int, j: int)
    requires
        0 <= j < regs.len(),
        regs[j].field_index == idx,
        forall|a: int, b: int|
            0 <= a < regs.len() && 0 <= b < regs.len() && a != b ==> regs[a].field_index
                != regs[b].field_index,
    ensures
        has_reg(regs, idx),
        reg_pos(regs, idx) == j,
{
    assert(0 <= j < regs.len() && regs[j].field_index == idx);
    let w = reg_pos(regs, idx);
    assert(0 <= w < regs.len() && regs[w].field_index == idx);
    if w != j {
        assert(regs[w].field_index != regs[j].field_index);
    }
}

/// Registering a data buffer records its capacity, replacing any capacity
/// registered earlier for the same field.
pub open spec fn upsert_data(regs: Seq<Registration>, idx: usize, cap: u64) -> Seq<Registration> {
    if has_reg(regs, idx as int) {
        let j = reg_pos(regs, idx as int);
        regs.update(
            j,
            Registration {
                field_index: idx,
                data_capacity: cap,
                offsets_capacity: regs[j].offsets_capacity,
            },
        )
    } else {
        regs.push(Registration { field_index: idx, data_capacity: cap, offsets_capacity: None })
    }
}

/// Registering an offsets buffer records its capacity, replacing any offsets
/// capacity registered earlier for the same field.
pub open spec fn upsert_offsets(regs: Seq<Registration>, idx: usize, cap: u64) -> Seq<
    Registration,
> {
    if has_reg(regs, idx as int) {
        let j = reg_pos(regs, idx as int);
        regs.update(
            j,
            Registration {
                field_index: idx,
                data_capacity: regs[j].data_capacity,
                offsets_capacity: Some(cap),
            },
        )
    } else {
        regs.push(Registration { field_index: idx, data_capacity: 0, offsets_capacity: Some(cap) })
    }
}

/// How many whole cells, starting at `cursor`, fit into `budget` bytes and
/// `slots` offset slots.
pub open spec fn fit_count(sizes: Seq<u64>, cursor: int, budget: int, slots: int) -> int
    decreases sizes.len() - cursor,
{
    if cursor < 0 || cursor >= sizes.len() || slots <= 0 || sizes[cursor] > budget {
        0
    } else {
        1 + fit_count(sizes, cursor + 1, budget - sizes[cursor], slots - 1)
    }
}

/// The offset slots a registration offers: bounded by the offsets buffer when
/// one is registered, otherwise only by the cells that remain.
pub open spec fn reg_slots(f: EngineField, reg: Registration) -> int {
    match reg.offsets_capacity {
        Some(oc) => oc as int / 8,
        None => f.cell_sizes@.len() - f.cursor,
    }
}

/// The cells one registration can accept this step.
pub open spec fn reg_fit(f: EngineField, reg: Registration) -> int {
    fit_count(f.cell_sizes@, f.cursor as int, reg.data_capacity as int, reg_slots(f, reg))
}

/// The cells the engine delivers for every registered field this step: the
/// minimum acceptance over all registrations.
pub open spec fn min_fit(fields: Seq<EngineField>, regs: Seq<Registration>) -> int
    decreases regs.len(),
{
    if regs.len() == 0 {
        0
    } else {
        let last = reg_fit(fields[regs[regs.len() - 1].field_index as int], regs[regs.len() - 1]);
        if regs.len() == 1 {
            last
        } else {
            let rest = min_fit(fields, regs.drop_last());
            if rest <= last {
                rest
            } else {
                last
            }
        }
    }
}

pub proof fn lemma_fit_count_bounds(sizes: Seq<u64>, cursor: int, budget: int, slots: int)
    requires
        0 <= cursor <= sizes.len(),
    ensures
        0 <= fit_count(sizes, cursor, budget, slots),
        cursor + fit_count(sizes, cursor, budget, slots) <= sizes.len(),
        slots >= 0 ==> fit_count(sizes, cursor, budget, slots) <= slots,
        budget >= 0 ==> span_bytes(sizes, cursor, fit_count(sizes, cursor, budget, slots))
            <= budget,
    decreases sizes.len() - cursor,
{
    if !(cursor >= sizes.len() || slots <= 0 || sizes[cursor] > budget) {
        lemma_fit_count_bounds(sizes, cursor + 1, budget - sizes[cursor], slots - 1);
    }
}

/// Spans are monotone in the number of cells taken.
pub proof fn lemma_span_bytes_mono(sizes: Seq<u64>, cursor: int, a: int, b: int)
    requires
        0 <= cursor,
        0 <= a <= b,
    ensures
        span_bytes(sizes, cursor, a) <= span_bytes(sizes, cursor, b),
{
    lemma_prefix_bytes_mono(sizes, cursor + a, cursor + b);
}

pub proof fn lemma_min_fit_le(fields: Seq<EngineField>, regs: Seq<Registration>, j: int)
    requires
        0 <= j < regs.len(),
    ensures
        min_fit(fields, regs) <= reg_fit(fields[regs[j].field_index as int], regs[j]),
    decreases regs.len(),
{
    if regs.len() > 1 && j < regs.len() - 1 {
        lemma_min_fit_le(fields, regs.drop_last(), j);
    }
}

pub proof fn lemma_min_fit_nonneg(fields: Seq<EngineField>, regs: Seq<Registration>)
    requires
        forall|j: int|
            0 <= j < regs.len() ==> (#[trigger] regs[j]).field_index < fields.len()
                && fields[regs[j].field_index as int].cursor as int
                <= fields[regs[j].field_index as int].cell_sizes@.len(),
    ensures
        min_fit(fields, regs) >= 0,
    decreases regs.len(),
{
    if regs.len() > 0 {
        let last = regs[regs.len() - 1];
        lemma_fit_count_bounds(
            fields[last.field_index as int].cell_sizes@,
            fields[last.field_index as int].cursor as int,
            last.data_capacity as int,
            reg_slots(fields[last.field_index as int], last),
        );
        if regs.len() > 1 {
            lemma_min_fit_nonneg(fields, regs.drop_last());
        }
    }
}

} // verus!

verus! {

/// An in-memory engine serving one read query: the terminal layer that the
/// buffer-attachment protocol registers buffers with and asks to advance.
///
/// Each step delivers, for every registered field, the longest run of whole
/// cells that fits every registration, then drops the registrations so that
/// buffers must be registered again before the next step.
pub struct Engine {
    pub fields: Vec<EngineField>,
    pub registrations: Vec<Registration>,
    pub outputs: Vec<StepOutput>,
}

impl Engine {
    pub open spec fn inv(&self) -> bool {
        &&& fields_wf(self.fields@)
        &&& regs_wf(self.fields@, self.registrations@)
        &&& outputs_wf(self.fields@, self.outputs@)
    }

    /// An engine with no projected fields yet.
    pub fn new() -> (e: Engine)
        ensures
            e.inv(),
            e.fields@.len() == 0,
            e.registrations@.len() == 0,
            e.outputs@.len() == 0,
    {
        Engine { fields: Vec::new(), registrations: Vec::new(), outputs: Vec::new() }
    }

    /// Adds one projected field holding the column's full logical result.
    /// Rejected when the name is already taken, or when `cell_sizes` does not
    /// account for exactly the bytes of `data`.
    ///
    /// Cells of zero bytes are accepted as stated; note that a step which
    /// delivers only such cells advances the field's cursor while its
    /// destination counters read zero bytes.
    pub fn add_field(&mut self, name: String, cell_sizes: Vec<u64>, data: Vec<u8>) -> (r: Result<
        (),
        Error,
    >)
        requires
            old(self).inv(),
        ensures
            final(self).inv(),
            r matches Err(e) ==> e is Engine,
            r is Ok <==> (!has_field(old(self).fields@, name@) && prefix_bytes(
                cell_sizes@,
                cell_sizes@.len() as int,
            ) == data@.len()),
            r is Ok ==> final(self).fields@ == old(self).fields@.push(
                (EngineField { name, cell_sizes, data, cursor: 0, byte_cursor: 0 }),
            ),
            r is Err ==> final(self).fields@ == old(self).fields@,
            final(self).registrations@ == old(self).registrations@,
            final(self).outputs@ == old(self).outputs@,
    {
        let n = self.fields.len();
        let mut i: usize = 0;
        while i < n
            invariant
                old(self).inv(),
                i <= n,
                n == self.fields@.len(),
                *self == *old(self),
                forall|k: int| 0 <= k < i ==> (#[trigger] self.fields@[k]).name@ != name@,
            decreases n - i,
        {
            if self.fields[i].name == name {
                return Err(Error::Engine("a field with this name already exists".to_owned()));
            }
            i += 1;
        }
        let total = data.len();
        let mut remaining: usize = total;
        let m = cell_sizes.len();
        let mut t: usize = 0;
        while t < m
            invariant
                old(self).inv(),
                t <= m,
                m == cell_sizes@.len(),
                *self == *old(self),
                remaining == data@.len() - prefix_bytes(cell_sizes@, t as int),
                0 <= remaining <= data@.len(),
            decreases m - t,
        {
            let s = cell_sizes[t];
            if s > remaining as u64 {
                proof {
                    lemma_prefix_bytes_mono(cell_sizes@, t + 1 as int, m as int);
                }
                return Err(
                    Error::Engine("cell sizes do not match the field's data".to_owned()),
                );
            }
            remaining = remaining - s as usize;
            t += 1;
        }
        if remaining != 0 {
            return Err(Error::Engine("cell sizes do not match the field's data".to_owned()));
        }
        self.fields.push(EngineField { name, cell_sizes, data, cursor: 0, byte_cursor: 0 });
        Ok(())
    }

    /// The position of the field named `name`, when the query projects one.
    fn find_field(&self, name: &String) -> (r: Option<usize>)
        requires
            fields_wf(self.fields@),
        ensures
            match r {
                Some(i) => i < self.fields@.len() && self.fields@[i as int].name@ == name@ && i
                    as int == field_index_of(self.fields@, name@),
                None => !has_field(self.fields@, name@),
            },
    {
        let n = self.fields.len();
        let mut i: usize = 0;
        while i < n
            invariant
                i <= n,
                n == self.fields@.len(),
                fields_wf(self.fields@),
                forall|k: int| 0 <= k < i ==> (#[trigger] self.fields@[k]).name@ != name@,
            decreases n - i,
        {
            if self.fields[i].name == *name {
                proof {
                    let w = field_index_of(self.fields@, name@);
                    assert(0 <= w < self.fields@.len() && self.fields@[w].name@ == name@);
                }
                return Some(i);
            }
            i += 1;
        }
        None
    }

    /// The position of the registration for field `idx`, when one exists.
    fn find_reg(&self, idx: usize) -> (r: Option<usize>)
        requires
            regs_wf(self.fields@, self.registrations@),
        ensures
            match r {
                Some(j) => j < self.registrations@.len() && self.registrations@[j as int].field_index
                    == idx && j as int == reg_pos(self.registrations@, idx as int),
                None => !has_reg(self.registrations@, idx as int),
            },
    {
        let n = self.registrations.len();
        let mut j: usize = 0;
        while j < n
            invariant
                j <= n,
                n == self.registrations@.len(),
                regs_wf(self.fields@, self.registrations@),
                forall|k: int|
                    0 <= k < j ==> (#[trigger] self.registrations@[k]).field_index != idx,
            decreases n - j,
        {
            if self.registrations[j].field_index == idx {
                proof {
                    let w = reg_pos(self.registrations@, idx as int);
                    assert(0 <= w < self.registrations@.len()
                        && self.registrations@[w].field_index == idx);
                }
                return Some(j);
            }
            j += 1;
        }
        None
    }

    /// Registers the data buffer for `name`: the engine will write at most
    /// `capacity` bytes of whole cells for that field in the next step.
    /// Rejected when the query does not project a field named `name`.
    pub fn register_data_buffer(&mut self, name: &String, capacity: u64) -> (r: Result<(), Error>)
        requires
            old(self).inv(),
        ensures
            final(self).inv(),
            r matches Err(e) ==> e is Engine,
            r is Ok <==> has_field(old(self).fields@, name@),
            r is Ok ==> final(self).registrations@ == upsert_data(
                old(self).registrations@,
                field_index_of(old(self).fields@, name@) as usize,
                capacity,
            ),
            r is Err ==> final(self).registrations@ == old(self).registrations@,
            final(self).fields@ == old(self).fields@,
            final(self).outputs@ == old(self).outputs@,
    {
        let idx = match self.find_field(name) {
            Some(i) => i,
            None => {
                return Err(Error::Engine("no such field in this query".to_owned()));
            },
        };
        match self.find_reg(idx) {
            Some(j) => {
                let r = &mut self.registrations[j];
                r.data_capacity = capacity;
                proof {
                    assert(final(self).registrations@ =~= upsert_data(
                        old(self).registrations@,
                        idx,
                        capacity,
                    ));
                }
            },
            None => {
                self.registrations.push(
                    Registration {
                        field_index: idx,
                        data_capacity: capacity,
                        offsets_capacity: None,
                    },
                );
            },
        }
        Ok(())
    }

    /// Registers the cell-offsets buffer for `name`: each delivered cell gets
    /// one 8-byte start marker, so at most `capacity / 8` cells are delivered
    /// for that field in the next step.
    /// Rejected when the query does not project a field named `name`.
    pub fn register_offsets_buffer(&mut self, name: &String, capacity: u64) -> (r: Result<
        (),
        Error,
    >)
        requires
            old(self).inv(),
        ensures
            final(self).inv(),
            r matches Err(e) ==> e is Engine,
            r is Ok <==> has_field(old(self).fields@, name@),
            r is Ok ==> final(self).registrations@ == upsert_offsets(
                old(self).registrations@,
                field_index_of(old(self).fields@, name@) as usize,
                capacity,
            ),
            r is Err ==> final(self).registrations@ == old(self).registrations@,
            final(self).fields@ == old(self).fields@,
            final(self).outputs@ == old(self).outputs@,
    {
        let idx = match self.find_field(name) {
            Some(i) => i,
            None => {
                return Err(Error::Engine("no such field in this query".to_owned()));
            },
        };
        match self.find_reg(idx) {
            Some(j) => {
                let r = &mut self.registrations[j];
                r.offsets_capacity = Some(capacity);
                proof {
                    assert(final(self).registrations@ =~= upsert_offsets(
                        old(self).registrations@,
                        idx,
                        capacity,
                    ));
                }
            },
            None => {
                self.registrations.push(
                    Registration {
                        field_index: idx,
                        data_capacity: 0,
                        offsets_capacity: Some(capacity),
                    },
                );
            },
        }
        Ok(())
    }
}

} // verus!

verus! {

/// A field after `m` of its cells were delivered in one step.
pub open spec fn advanced_field(f: EngineField, m: int) -> EngineField {
    EngineField {
        name: f.name,
        cell_sizes: f.cell_sizes,
        data: f.data,
        cursor: (f.cursor + m) as usize,
        byte_cursor: (f.byte_cursor + span_bytes(f.cell_sizes@, f.cursor as int, m)) as usize,
    }
}

/// Whether one of the first `j` registrations targets field `i`.
pub open spec fn reg_before(regs: Seq<Registration>, j: int, i: int) -> bool {
    exists|jj: int| 0 <= jj < j && (#[trigger] regs[jj]).field_index == i
}

/// The cells a step delivers: `min_fit` over the registrations present
/// before the step.
pub open spec fn step_cells(e: Engine) -> int {
    min_fit(e.fields@, e.registrations@)
}

/// After a successful step every registered field would be exhausted: the
/// step's result is the tail of the query.
pub open spec fn advance_complete(pre: Engine) -> bool {
    forall|j: int|
        0 <= j < pre.registrations@.len() ==> {
            let f = pre.fields@[(#[trigger] pre.registrations@[j]).field_index as int];
            f.cursor + step_cells(pre) == f.cell_sizes@.len()
        }
}

/// Law: a step that delivers nothing moves nothing. When no whole cell
/// fits some registration, the step's cell count is zero and every field
/// keeps its cursors, so no data is lost: the caller can enlarge a buffer
/// and retry, and the retried step observes the same remaining result.
pub proof fn lemma_zero_delivery_preserves_cursors(pre: Engine, post: Engine)
    requires
        pre.inv(),
        advance_transition(pre, post),
        step_cells(pre) == 0,
    ensures
        post.fields@ == pre.fields@,
{
    assert forall|i: int| 0 <= i < pre.fields@.len() implies post.fields@[i] == pre.fields@[i] by {
        if has_reg(pre.registrations@, i) {
            let f = pre.fields@[i];
            assert(f.wf());
            assert(span_bytes(f.cell_sizes@, f.cursor as int, 0) == 0);
            assert(advanced_field(f, 0) == f);
        }
    }
    assert(post.fields@ =~= pre.fields@);
}

/// Law: steps deliver a field's data in call order, with no gaps and no
/// rereads. What one step delivers for a registered field is exactly the
/// slice of that field's data between the field's byte cursors before and
/// after the step, so concatenating the deliveries of successive steps
/// reconstructs the field's full logical result.
pub proof fn lemma_step_delivers_next_slice(pre: Engine, post: Engine, j: int)
    requires
        pre.inv(),
        advance_transition(pre, post),
        0 <= j < pre.registrations@.len(),
    ensures
        ({
            let reg = pre.registrations@[j];
            let f0 = pre.fields@[reg.field_index as int];
            let f1 = post.fields@[reg.field_index as int];
            &&& f0.byte_cursor <= f1.byte_cursor <= f0.data@.len()
            &&& post.outputs@[j].bytes@ == f0.data@.subrange(
                f0.byte_cursor as int,
                f1.byte_cursor as int,
            )
        }),
{
    let reg = pre.registrations@[j];
    let idx = reg.field_index as int;
    assert(has_reg(pre.registrations@, idx));
    let f0 = pre.fields@[idx];
    assert(f0.wf());
    let m = step_cells(pre);
    lemma_min_fit_le(pre.fields@, pre.registrations@, j);
    assert forall|k: int|
        0 <= k < pre.registrations@.len() implies (#[trigger] pre.registrations@[k]).field_index
        < pre.fields@.len() && pre.fields@[pre.registrations@[k].field_index as int].cursor as int
        <= pre.fields@[pre.registrations@[k].field_index as int].cell_sizes@.len() by {
        assert(pre.fields@[pre.registrations@[k].field_index as int].wf());
    }
    lemma_min_fit_nonneg(pre.fields@, pre.registrations@);
    lemma_fit_count_bounds(
        f0.cell_sizes@,
        f0.cursor as int,
        reg.data_capacity as int,
        reg_slots(f0, reg),
    );
    assert(f0.cursor + m <= f0.cell_sizes@.len());
    lemma_span_bytes_mono(f0.cell_sizes@, f0.cursor as int, 0, m);
    lemma_prefix_bytes_mono(f0.cell_sizes@, 0, f0.cursor as int);
    lemma_prefix_bytes_mono(f0.cell_sizes@, f0.cursor + m, f0.cell_sizes@.len() as int);
    assert(f0.data.len() == f0.data@.len());
    assert(post.fields@[idx] == advanced_field(f0, m));
    assert(f0.byte_cursor + span_bytes(f0.cell_sizes@, f0.cursor as int, m) == prefix_bytes(
        f0.cell_sizes@,
        f0.cursor + m,
    ));
    assert(post.fields@[idx].byte_cursor as int == f0.byte_cursor + span_bytes(
        f0.cell_sizes@,
        f0.cursor as int,
        m,
    ));
}

/// How one successful step transforms the engine: one output per
/// registration, holding the bytes (and relative offsets) of the delivered
/// cells within each registration's capacities; every registered field's
/// cursors advanced by the step's cells; the registrations consumed.
pub open spec fn advance_transition(pre: Engine, post: Engine) -> bool {
    &&& post.registrations@.len() == 0
    &&& post.fields@.len() == pre.fields@.len()
    &&& post.outputs@.len() == pre.registrations@.len()
    &&& forall|j: int|
        0 <= j < pre.registrations@.len() ==> {
            let reg = pre.registrations@[j];
            let f = pre.fields@[reg.field_index as int];
            let mm = step_cells(pre);
            &&& (#[trigger] post.outputs@[j]).field_index == reg.field_index
            &&& post.outputs@[j].bytes@ == f.data@.subrange(
                f.byte_cursor as int,
                f.byte_cursor + span_bytes(f.cell_sizes@, f.cursor as int, mm),
            )
            &&& post.outputs@[j].bytes@.len() <= reg.data_capacity
            &&& (post.outputs@[j].offsets is Some) == (reg.offsets_capacity is Some)
            &&& (post.outputs@[j].offsets matches Some(v) ==> v@ == rel_offsets(
                f.cell_sizes@,
                f.cursor as int,
                mm,
            ))
        }
    &&& forall|i: int|
        0 <= i < pre.fields@.len() ==> #[trigger] post.fields@[i] == (if has_reg(
            pre.registrations@,
            i,
        ) {
            advanced_field(pre.fields@[i], step_cells(pre))
        } else {
            pre.fields@[i]
        })
}

/// How many cells of `f`, starting at its cursor, fit the buffers that
/// `reg` registered.
fn field_fit(f: &EngineField, reg: &Registration) -> (k: usize)
    requires
        f.wf(),
    ensures
        k as int == reg_fit(*f, *reg),
{
    let len = f.cell_sizes.len();
    let mut k: usize = 0;
    let mut budget: u64 = reg.data_capacity;
    let mut slots: u64 = match reg.offsets_capacity {
        Some(oc) => oc / 8,
        None => (len - f.cursor) as u64,
    };
    proof {
        assert(slots as int == reg_slots(*f, *reg));
    }
    while f.cursor + k < len && slots > 0 && f.cell_sizes[f.cursor + k] <= budget
        invariant
            f.wf(),
            len == f.cell_sizes@.len(),
            k <= len - f.cursor,
            reg_fit(*f, *reg) == k + fit_count(
                f.cell_sizes@,
                (f.cursor + k) as int,
                budget as int,
                slots as int,
            ),
        decreases len - f.cursor - k,
    {
        budget = budget - f.cell_sizes[f.cursor + k];
        slots = slots - 1;
        k = k + 1;
    }
    k
}

/// Builds the step output for one registration: the bytes of `m` cells from
/// the field's cursor and, when an offsets buffer is registered, their
/// relative start offsets. Also returns the byte span of those cells.
fn make_output(f: &EngineField, reg: &Registration, m: usize) -> (r: (StepOutput, usize))
    requires
        f.wf(),
        m as int <= reg_fit(*f, *reg),
    ensures
        r.0.field_index == reg.field_index,
        r.1 as int == span_bytes(f.cell_sizes@, f.cursor as int, m as int),
        r.0.bytes@ == f.data@.subrange(
            f.byte_cursor as int,
            f.byte_cursor + span_bytes(f.cell_sizes@, f.cursor as int, m as int),
        ),
        r.0.bytes@.len() <= reg.data_capacity,
        (r.0.offsets is Some) == (reg.offsets_capacity is Some),
        r.0.offsets matches Some(v) ==> v@ == rel_offsets(f.cell_sizes@, f.cursor as int, m as int),
{
    let ghost sizes = f.cell_sizes@;
    let ghost c = f.cursor as int;
    let ghost fit = reg_fit(*f, *reg);
    let sizes_len = f.cell_sizes.len();
    let data_len = f.data.len();
    proof {
        lemma_fit_count_bounds(sizes, c, reg.data_capacity as int, reg_slots(*f, *reg));
        lemma_span_bytes_mono(sizes, c, 0, m as int);
        lemma_span_bytes_mono(sizes, c, m as int, fit);
        lemma_prefix_bytes_mono(sizes, 0, c);
        lemma_prefix_bytes_mono(sizes, c + m, sizes.len() as int);
    }
    let mut span: u64 = 0;
    let mut t: usize = 0;
    while t < m
        invariant
            f.wf(),
            sizes == f.cell_sizes@,
            c == f.cursor as int,
            t <= m,
            c + m <= sizes.len(),
            sizes.len() <= usize::MAX,
            span as int == span_bytes(sizes, c, t as int),
            span_bytes(sizes, c, m as int) <= reg.data_capacity as int,
        decreases m - t,
    {
        proof {
            lemma_span_bytes_mono(sizes, c, (t + 1) as int, m as int);
            assert(prefix_bytes(sizes, c + t + 1) == prefix_bytes(sizes, c + t) + sizes[c + t]);
        }
        span = span + f.cell_sizes[f.cursor + t];
        t = t + 1;
    }
    proof {
        lemma_prefix_bytes_mono(sizes, 0, c);
        lemma_prefix_bytes_mono(sizes, c + m, sizes.len() as int);
        assert(f.byte_cursor + span as int == prefix_bytes(sizes, c + m));
        assert(f.byte_cursor + span as int <= f.data@.len());
        assert(span as int <= f.data@.len());
    }
    let span_us: usize = span as usize;
    let mut bytes: Vec<u8> = Vec::new();
    let mut t: usize = 0;
    while t < span_us
        invariant
            f.wf(),
            t <= span_us,
            f.byte_cursor + span_us <= f.data@.len(),
            f.data@.len() <= usize::MAX,
            bytes@.len() == t,
            forall|u: int| 0 <= u < t ==> bytes@[u] == f.data@[f.byte_cursor + u],
        decreases span_us - t,
    {
        bytes.push(f.data[f.byte_cursor + t]);
        t = t + 1;
    }
    proof {
        assert(bytes@ =~= f.data@.subrange(
            f.byte_cursor as int,
            f.byte_cursor + span_bytes(sizes, c, m as int),
        ));
    }
    let offsets: Option<Vec<u64>> = match reg.offsets_capacity {
        Some(_) => {
            let mut offs: Vec<u64> = Vec::new();
            let mut acc: u64 = 0;
            let mut t: usize = 0;
            while t < m
                invariant
                    f.wf(),
                    sizes == f.cell_sizes@,
                    c == f.cursor as int,
                    t <= m,
                    c + m <= sizes.len(),
                    sizes.len() <= usize::MAX,
                    acc as int == span_bytes(sizes, c, t as int),
                    span_bytes(sizes, c, m as int) <= reg.data_capacity as int,
                    offs@.len() == t,
                    forall|u: int| 0 <= u < t ==> offs@[u] as int == span_bytes(sizes, c, u),
                decreases m - t,
            {
                offs.push(acc);
                proof {
                    lemma_span_bytes_mono(sizes, c, (t + 1) as int, m as int);
                    assert(prefix_bytes(sizes, c + t + 1) == prefix_bytes(sizes, c + t)
                        + sizes[c + t]);
                }
                acc = acc + f.cell_sizes[f.cursor + t];
                t = t + 1;
            }
            proof {
                assert(offs@ =~= rel_offsets(sizes, c, m as int));
            }
            Some(offs)
        },
        None => None,
    };
    (StepOutput { field_index: reg.field_index, bytes, offsets }, span_us)
}

impl Engine {
    /// The minimum acceptance over all current registrations.
    fn compute_min(&self) -> (m: usize)
        requires
            self.inv(),
            self.registrations@.len() > 0,
        ensures
            m as int == min_fit(self.fields@, self.registrations@),
    {
        let reg0 = self.registrations[0];
        let mut m: usize = field_fit(&self.fields[reg0.field_index], &reg0);
        proof {
            let regs = self.registrations@;
            assert(regs.take(1).len() == 1);
            assert(regs.take(1)[0] == regs[0]);
        }
        let n = self.registrations.len();
        let mut j: usize = 1;
        while j < n
            invariant
                self.inv(),
                1 <= j <= n,
                n == self.registrations@.len(),
                m as int == min_fit(self.fields@, self.registrations@.take(j as int)),
            decreases n - j,
        {
            let reg = self.registrations[j];
            let fit = field_fit(&self.fields[reg.field_index], &reg);
            proof {
                let regs = self.registrations@;
                assert(regs.take((j + 1) as int).drop_last() =~= regs.take(j as int));
                assert(regs.take((j + 1) as int).last() == regs[j as int]);
            }
            if fit < m {
                m = fit;
            }
            j = j + 1;
        }
        proof {
            assert(self.registrations@.take(n as int) =~= self.registrations@);
        }
        m
    }

    /// Builds one step output per registration, in registration order,
    /// together with each field's byte span for this step.
    fn build_outputs(&self, m: usize) -> (r: (Vec<StepOutput>, Vec<usize>))
        requires
            self.inv(),
            forall|j: int|
                0 <= j < self.registrations@.len() ==> m as int <= reg_fit(
                    self.fields@[(#[trigger] self.registrations@[j]).field_index as int],
                    self.registrations@[j],
                ),
        ensures
            r.0@.len() == self.registrations@.len(),
            r.1@.len() == self.registrations@.len(),
            forall|j: int|
                0 <= j < self.registrations@.len() ==> (#[trigger] r.1@[j]) as int == span_bytes(
                    self.fields@[self.registrations@[j].field_index as int].cell_sizes@,
                    self.fields@[self.registrations@[j].field_index as int].cursor as int,
                    m as int,
                ),
            forall|j: int|
                0 <= j < self.registrations@.len() ==> {
                    let reg = self.registrations@[j];
                    let f = self.fields@[reg.field_index as int];
                    let mm = m as int;
                    &&& (#[trigger] r.0@[j]).field_index == reg.field_index
                    &&& r.1@[j] as int == span_bytes(f.cell_sizes@, f.cursor as int, mm)
                    &&& r.0@[j].bytes@ == f.data@.subrange(
                        f.byte_cursor as int,
                        f.byte_cursor + span_bytes(f.cell_sizes@, f.cursor as int, mm),
                    )
                    &&& r.0@[j].bytes@.len() <= reg.data_capacity
                    &&& (r.0@[j].offsets is Some) == (reg.offsets_capacity is Some)
                    &&& (r.0@[j].offsets matches Some(v) ==> v@ == rel_offsets(
                        f.cell_sizes@,
                        f.cursor as int,
                        mm,
                    ))
                },
    {
        let n = self.registrations.len();
        let mut outputs: Vec<StepOutput> = Vec::new();
        let mut spans: Vec<usize> = Vec::new();
        let mut j: usize = 0;
        while j < n
            invariant
                self.inv(),
                j <= n,
                n == self.registrations@.len(),
                forall|jj: int|
                    0 <= jj < n ==> m as int <= reg_fit(
                        self.fields@[(#[trigger] self.registrations@[jj]).field_index as int],
                        self.registrations@[jj],
                    ),
                outputs@.len() == j,
                spans@.len() == j,
                forall|jj: int|
                    0 <= jj < j ==> (#[trigger] spans@[jj]) as int == span_bytes(
                        self.fields@[self.registrations@[jj].field_index as int].cell_sizes@,
                        self.fields@[self.registrations@[jj].field_index as int].cursor as int,
                        m as int,
                    ),
                forall|jj: int|
                    0 <= jj < j ==> {
                        let reg = self.registrations@[jj];
                        let f = self.fields@[reg.field_index as int];
                        let mm = m as int;
                        &&& (#[trigger] outputs@[jj]).field_index == reg.field_index
                        &&& spans@[jj] as int == span_bytes(f.cell_sizes@, f.cursor as int, mm)
                        &&& outputs@[jj].bytes@ == f.data@.subrange(
                            f.byte_cursor as int,
                            f.byte_cursor + span_bytes(f.cell_sizes@, f.cursor as int, mm),
                        )
                        &&& outputs@[jj].bytes@.len() <= reg.data_capacity
                        &&& (outputs@[jj].offsets is Some) == (reg.offsets_capacity is Some)
                        &&& (outputs@[jj].offsets matches Some(v) ==> v@ == rel_offsets(
                            f.cell_sizes@,
                            f.cursor as int,
                            mm,
                        ))
                    },
            decreases n - j,
        {
            let reg = self.registrations[j];
            proof {
                assert(self.fields@[reg.field_index as int].wf());
            }
            let (out, span) = make_output(&self.fields[reg.field_index], &reg, m);
            outputs.push(out);
            spans.push(span);
            j = j + 1;
        }
        (outputs, spans)
    }

    /// Advances every registered field's cursors by this step's cells.
    fn advance_fields(&mut self, m: usize, spans: &Vec<usize>)
        requires
            old(self).inv(),
            old(self).registrations@.len() == spans@.len(),
            forall|j: int|
                0 <= j < old(self).registrations@.len() ==> m as int <= reg_fit(
                    old(self).fields@[(#[trigger] old(self).registrations@[j]).field_index as int],
                    old(self).registrations@[j],
                ),
            forall|j: int|
                0 <= j < spans@.len() ==> {
                    let reg = old(self).registrations@[j];
                    let f = old(self).fields@[reg.field_index as int];
                    (#[trigger] spans@[j]) as int == span_bytes(
                        f.cell_sizes@,
                        f.cursor as int,
                        m as int,
                    )
                },
        ensures
            final(self).inv(),
            final(self).registrations@ == old(self).registrations@,
            final(self).outputs@ == old(self).outputs@,
            final(self).fields@.len() == old(self).fields@.len(),
            forall|i: int|
                0 <= i < old(self).fields@.len() ==> #[trigger] final(self).fields@[i] == (if has_reg(
                    old(self).registrations@,
                    i,
                ) {
                    advanced_field(old(self).fields@[i], m as int)
                } else {
                    old(self).fields@[i]
                }),
    {
        let ghost fields0 = old(self).fields@;
        let ghost regs0 = old(self).registrations@;
        let n = self.registrations.len();
        let mut j: usize = 0;
        while j < n
            invariant
                old(self).inv(),
                fields0 == old(self).fields@,
                regs0 == old(self).registrations@,
                j <= n,
                n == regs0.len(),
                regs0.len() == spans@.len(),
                forall|jj: int|
                    0 <= jj < regs0.len() ==> m as int <= reg_fit(
                        fields0[(#[trigger] regs0[jj]).field_index as int],
                        regs0[jj],
                    ),
                forall|jj: int|
                    0 <= jj < spans@.len() ==> {
                        let reg = regs0[jj];
                        let f = fields0[reg.field_index as int];
                        (#[trigger] spans@[jj]) as int == span_bytes(
                            f.cell_sizes@,
                            f.cursor as int,
                            m as int,
                        )
                    },
                self.registrations@ == regs0,
                self.outputs@ == old(self).outputs@,
                self.fields@.len() == fields0.len(),
                forall|i: int|
                    0 <= i < fields0.len() ==> #[trigger] self.fields@[i] == (if reg_before(
                        regs0,
                        j as int,
                        i,
                    ) {
                        advanced_field(fields0[i], m as int)
                    } else {
                        fields0[i]
                    }),
            decreases n - j,
        {
            let reg = self.registrations[j];
            let sp = spans[j];
            proof {
                assert forall|jj: int| 0 <= jj < j implies (#[trigger] regs0[jj]).field_index
                    != reg.field_index by {
                    assert(regs0[jj].field_index != regs0[j as int].field_index);
                }
                assert(!reg_before(regs0, j as int, reg.field_index as int));
                assert(reg == regs0[j as int]);
                let f = fields0[reg.field_index as int];
                assert(self.fields@[reg.field_index as int] == f);
                assert(f.wf());
                assert(m as int <= reg_fit(f, reg));
                lemma_fit_count_bounds(
                    f.cell_sizes@,
                    f.cursor as int,
                    reg.data_capacity as int,
                    reg_slots(f, reg),
                );
                assert(f.cursor + m <= f.cell_sizes@.len());
                lemma_prefix_bytes_mono(f.cell_sizes@, 0, f.cursor as int);
                lemma_prefix_bytes_mono(f.cell_sizes@, f.cursor + m, f.cell_sizes@.len() as int);
                assert(sp as int == span_bytes(f.cell_sizes@, f.cursor as int, m as int));
                assert(f.byte_cursor + sp == prefix_bytes(f.cell_sizes@, f.cursor + m));
                assert(f.byte_cursor + sp <= f.data@.len());
            }
            let fref = &mut self.fields[reg.field_index];
            let sizes_len = fref.cell_sizes.len();
            let data_len = fref.data.len();
            fref.cursor = fref.cursor + m;
            fref.byte_cursor = fref.byte_cursor + sp;
            proof {
                assert(self.fields@[reg.field_index as int] == advanced_field(
                    fields0[reg.field_index as int],
                    m as int,
                ));
            }
            j = j + 1;
        }
        proof {
            assert forall|i: int| 0 <= i < fields0.len() implies (reg_before(regs0, n as int, i)
                == has_reg(regs0, i)) by {}
            assert forall|i: int| 0 <= i < self.fields@.len() implies (
            #[trigger] self.fields@[i]).wf() by {
                if has_reg(regs0, i) {
                    let jj = reg_pos(regs0, i);
                    assert(0 <= jj < regs0.len() && regs0[jj].field_index == i);
                    let f = fields0[i];
                    assert(f.wf());
                    assert(f.cell_sizes.len() == f.cell_sizes@.len());
                    assert(f.data.len() == f.data@.len());
                    assert(m as int <= reg_fit(fields0[(regs0[jj]).field_index as int], regs0[jj]));
                    lemma_fit_count_bounds(
                        f.cell_sizes@,
                        f.cursor as int,
                        regs0[jj].data_capacity as int,
                        reg_slots(f, regs0[jj]),
                    );
                    lemma_span_bytes_mono(f.cell_sizes@, f.cursor as int, 0, m as int);
                    lemma_prefix_bytes_mono(f.cell_sizes@, 0, f.cursor as int);
                    lemma_prefix_bytes_mono(
                        f.cell_sizes@,
                        f.cursor + m,
                        f.cell_sizes@.len() as int,
                    );
                    assert(self.fields@[i] == advanced_field(f, m as int));
                } else {
                    assert(self.fields@[i] == fields0[i]);
                }
            }
            assert forall|i: int, k: int|
                0 <= i < self.fields@.len() && 0 <= k < self.fields@.len() && i
                    != k implies self.fields@[i].name@ != self.fields@[k].name@ by {
                assert(self.fields@[i].name == fields0[i].name);
                assert(self.fields@[k].name == fields0[k].name);
            }
        }
    }

    /// Whether every registered field has now delivered all of its cells.
    fn registered_exhausted(&self) -> (b: bool)
        requires
            self.inv(),
        ensures
            b == (forall|j: int|
                0 <= j < self.registrations@.len() ==> self.fields@[(
                #[trigger] self.registrations@[j]).field_index as int].exhausted()),
    {
        let n = self.registrations.len();
        let mut all = true;
        let mut j: usize = 0;
        while j < n
            invariant
                self.inv(),
                j <= n,
                n == self.registrations@.len(),
                all == (forall|jj: int|
                    0 <= jj < j ==> self.fields@[(
                    #[trigger] self.registrations@[jj]).field_index as int].exhausted()),
            decreases n - j,
        {
            let reg = self.registrations[j];
            let f = &self.fields[reg.field_index];
            if f.cursor < f.cell_sizes.len() {
                all = false;
            }
            j = j + 1;
        }
        all
    }

    /// Advances the query by one bounded step.
    ///
    /// Every registered field receives the same number of cells: the longest
    /// run, starting at its cursor, that fits every registration's data
    /// capacity and offset slots. The registrations are consumed; buffers
    /// must be registered again before the next step. `Complete` is reported
    /// exactly when every registered field is exhausted afterwards.
    ///
    /// Advancing with no registered buffers is an engine error and changes
    /// nothing.
    pub fn advance_query(&mut self) -> (r: Result<StepStatus, Error>)
        requires
            old(self).inv(),
        ensures
            final(self).inv(),
            r is Err <==> old(self).registrations@.len() == 0,
            r is Err ==> *final(self) == *old(self),
            r matches Err(e) ==> e is Engine,
            r is Ok ==> advance_transition(*old(self), *final(self)),
            r is Ok ==> (r == Ok::<StepStatus, Error>(StepStatus::Complete) <==> advance_complete(
                *old(self),
            )),
    {
        if self.registrations.len() == 0 {
            return Err(Error::Engine("no buffers are registered for this step".to_owned()));
        }
        let ghost fields0 = self.fields@;
        let ghost regs0 = self.registrations@;
        let m = self.compute_min();
        proof {
            assert forall|j: int| 0 <= j < regs0.len() implies m as int <= reg_fit(
                fields0[(#[trigger] regs0[j]).field_index as int],
                regs0[j],
            ) by {
                lemma_min_fit_le(fields0, regs0, j);
            }
        }
        let (outputs, spans) = self.build_outputs(m);
        let ghost outs0 = outputs@;
        self.outputs = outputs;
        self.advance_fields(m, &spans);
        let complete = self.registered_exhausted();
        proof {
            assert(self.outputs@ == outs0);
            assert forall|a: int, b: int|
                0 <= a < outs0.len() && 0 <= b < outs0.len() && a != b implies outs0[a].field_index
                != outs0[b].field_index by {
                assert(outs0[a].field_index == regs0[a].field_index);
                assert(outs0[b].field_index == regs0[b].field_index);
            }
            assert forall|j: int| 0 <= j < regs0.len() implies {
                let f0 = fields0[(#[trigger] regs0[j]).field_index as int];
                self.fields@[regs0[j].field_index as int].exhausted() == (f0.cursor + m
                    == f0.cell_sizes@.len())
            } by {
                let idx = regs0[j].field_index as int;
                assert(has_reg(regs0, idx));
                assert(self.fields@[idx] == advanced_field(fields0[idx], m as int));
                let f0 = fields0[idx];
                assert(f0.wf());
                assert(f0.cell_sizes.len() == f0.cell_sizes@.len());
                assert(m as int <= reg_fit(f0, regs0[j]));
                lemma_fit_count_bounds(
                    f0.cell_sizes@,
                    f0.cursor as int,
                    regs0[j].data_capacity as int,
                    reg_slots(f0, regs0[j]),
                );
                assert(f0.cursor + m <= f0.cell_sizes@.len());
            }
        }
        self.registrations = Vec::new();
        if complete {
            Ok(StepStatus::Complete)
        } else {
            Ok(StepStatus::Incomplete)
        }
    }
}

} // verus!
