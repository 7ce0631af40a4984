use vstd::prelude::*;

use crate::buffers::QueryBuffers;
use crate::engine::Engine;
use crate::engine::EngineField;
use crate::engine::Registration;
use crate::engine::field_index_of;
use crate::engine::fields_wf;
use crate::engine::has_field;
use crate::engine::has_reg;
use crate::engine::reg_pos;
use crate::engine::StepStatus;
use crate::engine::advance_complete;
use crate::engine::advance_transition;
use crate::engine::lemma_reg_pos_unique;
use crate::engine::regs_wf;
use crate::engine::upsert_data;
use crate::engine::upsert_offsets;
use crate::error::Error;
use crate::outcome::ReadStepOutput;
use crate::outcome::classify_step;
use vstd::pervasive::VecAdditionalExecFns;

verus! {

/// Encapsulates the per-field state for receiving intermediate query
/// results: the field's name, its destination buffers, and the two size
/// counters the engine reads capacities from and writes byte counts into.
pub struct RawReadHandle {
    /// Name of the field which this handle receives data from.
    pub field: String,
    /// Size in bytes of one element of the field's type; record counts for a
    /// field without an offsets buffer are derived from it.
    pub elem_size: usize,
    /// As input to the engine, the capacity of the data buffer; as output,
    /// the size in bytes of an intermediate result.
    pub data_size: u64,
    /// As input to the engine, the capacity of the cell-offsets buffer; as
    /// output, the size in bytes of the intermediate offset results. Present
    /// exactly when the buffers carry a cell-offsets region.
    pub offsets_size: Option<u64>,
    /// Destination buffers for data and cell offsets. These are registered
    /// with the engine again at each step.
    pub location: QueryBuffers,
}

/// Whether the engine's last step produced an output for field `name`.
pub open spec fn has_output_for(e: Engine, name: Seq<char>) -> bool {
    exists|j: int|
        0 <= j < e.outputs@.len() && e.fields@[(#[trigger] e.outputs@[j]).field_index as int].name@
            == name
}

/// The position of the output for field `name` (unique under the engine
/// invariant, which keeps output field indices and field names distinct).
pub open spec fn output_pos_for(e: Engine, name: Seq<char>) -> int {
    choose|j: int|
        0 <= j < e.outputs@.len() && e.fields@[(#[trigger] e.outputs@[j]).field_index as int].name@
            == name
}

/// The engine's last step has an output for the handle's field and it fits
/// the handle's buffers: the bytes fit the data buffer, and cell offsets are
/// present exactly when an offsets buffer is and fit it.
pub open spec fn collect_fits(e: Engine, h: RawReadHandle) -> bool {
    &&& has_output_for(e, h.field@)
    &&& {
        let out = e.outputs@[output_pos_for(e, h.field@)];
        &&& out.bytes@.len() <= h.location.data@.len()
        &&& (out.offsets is Some) == (h.location.cell_offsets is Some)
        &&& match (out.offsets, h.location.cell_offsets) {
            (Some(ov), Some(bo)) => ov@.len() <= bo@.len(),
            _ => true,
        }
    }
}

/// The handle after collecting the engine's output for its field: the size
/// counters hold the delivered byte counts, and each buffer holds the
/// delivered values followed by whatever it held before.
pub open spec fn collected(e: Engine, h0: RawReadHandle, h1: RawReadHandle) -> bool {
    let out = e.outputs@[output_pos_for(e, h0.field@)];
    &&& h1.field == h0.field
    &&& h1.elem_size == h0.elem_size
    &&& h1.data_size == out.bytes@.len()
    &&& h1.location.data@ == out.bytes@ + h0.location.data@.skip(out.bytes@.len() as int)
    &&& match (out.offsets, h0.location.cell_offsets, h1.location.cell_offsets) {
        (Some(ov), Some(bo0), Some(bo1)) => {
            &&& h1.offsets_size == Some((8 * ov@.len()) as u64)
            &&& bo1@ == ov@ + bo0@.skip(ov@.len() as int)
        },
        (None, None, None) => h1.offsets_size == h0.offsets_size,
        _ => false,
    }
}

/// The registrations an attach leaves behind: the data capacity, and the
/// offsets capacity when the handle's buffers carry a cell-offsets region,
/// recorded for the handle's field.
pub open spec fn attach_regs(
    fields: Seq<EngineField>,
    regs: Seq<Registration>,
    h: RawReadHandle,
) -> Seq<Registration> {
    let idx = field_index_of(fields, h.field@) as usize;
    let regs1 = upsert_data(regs, idx, h.location.data@.len() as u64);
    match h.location.cell_offsets {
        Some(offs) => upsert_offsets(regs1, idx, (8 * offs@.len()) as u64),
        None => regs1,
    }
}

impl RawReadHandle {
    /// The size counters are consistent with the buffers: a counter is
    /// present exactly when its buffer is, and never exceeds the buffer's
    /// capacity.
    pub open spec fn wf(&self) -> bool {
        &&& self.elem_size >= 1
        &&& (self.offsets_size is Some) == (self.location.cell_offsets is Some)
        &&& self.data_size <= self.location.data@.len()
        &&& match (self.offsets_size, self.location.cell_offsets) {
            (Some(sz), Some(offs)) => sz <= 8 * offs@.len() && 8 * offs@.len() <= u64::MAX,
            _ => true,
        }
    }

    /// A handle for `field`, recording the buffers' current capacities as
    /// the initial size values; before any step has run, `last_read_size`
    /// therefore reports the offered capacities.
    pub fn new(field: &str, elem_size: usize, location: QueryBuffers) -> (h: RawReadHandle)
        requires
            elem_size >= 1,
            location.cell_offsets matches Some(offs) ==> 8 * offs@.len() <= u64::MAX,
        ensures
            h.wf(),
            h.field@ == field@,
            h.elem_size == elem_size,
            h.data_size == location.data@.len(),
            h.offsets_size == (match location.cell_offsets {
                Some(offs) => Some((8 * offs@.len()) as u64),
                None => None::<u64>,
            }),
            h.location == location,
    {
        let data_size = location.data.len() as u64;
        let offsets_size = match &location.cell_offsets {
            Some(offs) => Some((offs.len() as u64) * 8),
            None => None,
        };
        RawReadHandle { field: field.to_owned(), elem_size, data_size, offsets_size, location }
    }

    /// Writes the buffers' current capacities into the size counters, then
    /// registers the data buffer (and the offsets buffer, when present) with
    /// the engine for this handle's field.
    ///
    /// Fails exactly when the engine does not know the field; the engine's
    /// fields and outputs are never changed, and on failure its
    /// registrations are left as they were.
    pub fn attach_query(&mut self, engine: &mut Engine) -> (r: Result<(), Error>)
        requires
            old(self).wf(),
            old(engine).inv(),
        ensures
            final(self).wf(),
            final(engine).inv(),
            final(self).field == old(self).field,
            final(self).elem_size == old(self).elem_size,
            final(self).location == old(self).location,
            final(self).data_size == old(self).location.data@.len(),
            final(engine).fields@ == old(engine).fields@,
            final(engine).outputs@ == old(engine).outputs@,
            r is Ok <==> has_field(old(engine).fields@, old(self).field@),
            r is Ok ==> final(self).offsets_size == (match old(self).location.cell_offsets {
                Some(offs) => Some((8 * offs@.len()) as u64),
                None => None::<u64>,
            }),
            r is Ok ==> final(engine).registrations@ == attach_regs(
                old(engine).fields@,
                old(engine).registrations@,
                *old(self),
            ),
            r is Err ==> final(self).offsets_size == old(self).offsets_size,
            r is Err ==> final(engine).registrations@ == old(engine).registrations@,
            r matches Err(e) ==> e is Engine,
    {
        let capacity = self.location.data.len() as u64;
        self.data_size = capacity;
        engine.register_data_buffer(&self.field, capacity)?;
        if let Some(offs) = &self.location.cell_offsets {
            let sz = (offs.len() as u64) * 8;
            self.offsets_size = Some(sz);
            engine.register_offsets_buffer(&self.field, sz)?;
        }
        Ok(())
    }

    /// The record and byte counts that `last_read_size` derives from the
    /// size counters: records come from the offsets counter (8 bytes per
    /// marker) when one is present, else from the data counter divided by
    /// the element size.
    pub open spec fn spec_last_read_size(&self) -> (usize, usize) {
        let nvalues = match self.offsets_size {
            Some(sz) => (sz as int / 8) as usize,
            None => (self.data_size as int / self.elem_size as int) as usize,
        };
        (nvalues, self.data_size as usize)
    }

    /// Returns the number of records and bytes produced by the last read,
    /// or the capacity of the destination buffers if no read has occurred.
    pub fn last_read_size(&self) -> (r: (usize, usize))
        requires
            self.wf(),
        ensures
            r == self.spec_last_read_size(),
    {
        proof {
            assert(self.location.data.len() == self.location.data@.len());
            match (&self.offsets_size, &self.location.cell_offsets) {
                (Some(sz), Some(offs)) => {
                    assert(offs.len() == offs@.len());
                    vstd::arithmetic::div_mod::lemma_div_is_ordered(
                        *sz as int,
                        8 * offs@.len() as int,
                        8,
                    );
                    vstd::arithmetic::div_mod::lemma_div_multiples_vanish(offs@.len() as int, 8);
                },
                _ => {},
            }
        }
        let nvalues = match self.offsets_size {
            Some(sz) => (sz / 8) as usize,
            None => (self.data_size as usize) / self.elem_size,
        };
        (nvalues, self.data_size as usize)
    }

    /// After a step, reads back what the engine delivered for this handle's
    /// field: the size counters take the delivered byte counts, and the
    /// delivered bytes and cell offsets are copied to the front of the
    /// destination buffers.
    ///
    /// Fails, changing nothing, when the last step delivered no output for
    /// the field, or when what it delivered does not fit the destination
    /// buffers (possible only when a later registration for the same field
    /// superseded this handle's).
    pub fn collect_output(&mut self, engine: &Engine) -> (r: Result<(), Error>)
        requires
            old(self).wf(),
            engine.inv(),
        ensures
            final(self).wf(),
            final(self).field == old(self).field,
            final(self).elem_size == old(self).elem_size,
            final(self).location.data@.len() == old(self).location.data@.len(),
            (final(self).location.cell_offsets is Some) == (old(self).location.cell_offsets
                is Some),
            r is Err ==> *final(self) == *old(self),
            r matches Err(e) ==> e is Engine,
            r is Ok <==> collect_fits(*engine, *old(self)),
            r is Ok ==> collected(*engine, *old(self), *final(self)),
    {
        let n = engine.outputs.len();
        let mut found: Option<usize> = None;
        let mut j: usize = 0;
        while j < n
            invariant
                engine.inv(),
                j <= n,
                n == engine.outputs@.len(),
                *self == *old(self),
                old(self).wf(),
                match found {
                    Some(jj) => jj < j && engine.fields@[engine.outputs@[jj as int].field_index
                        as int].name@ == self.field@,
                    None => forall|k: int|
                        0 <= k < j ==> engine.fields@[(
                        #[trigger] engine.outputs@[k]).field_index as int].name@ != self.field@,
                },
            decreases n - j,
        {
            if found.is_none() {
                let out_idx = engine.outputs[j].field_index;
                if engine.fields[out_idx].name == self.field {
                    found = Some(j);
                }
            }
            j = j + 1;
        }
        let j = match found {
            Some(jj) => jj,
            None => {
                return Err(
                    Error::Engine("the last step delivered nothing for this field".to_owned()),
                );
            },
        };
        proof {
            let w = output_pos_for(*engine, self.field@);
            assert(0 <= w < engine.outputs@.len() && engine.fields@[engine.outputs@[w].field_index
                as int].name@ == self.field@);
            if w != j {
                assert(engine.outputs@[w].field_index != engine.outputs@[j as int].field_index);
            }
            assert(w == j);
        }
        let ghost outv = engine.outputs@[j as int];
        let out = &engine.outputs[j];
        if out.bytes.len() > self.location.data.len() {
            return Err(
                Error::Engine("the delivered bytes exceed the destination buffer".to_owned()),
            );
        }
        if out.offsets.is_some() != self.location.cell_offsets.is_some() {
            return Err(
                Error::Engine("the delivered cell offsets do not match the offsets buffer".to_owned()),
            );
        }
        if let Some(ov) = &out.offsets {
            match &self.location.cell_offsets {
                Some(bo) => {
                    if ov.len() > bo.len() {
                        return Err(
                            Error::Engine("the delivered cell offsets exceed the offsets buffer".to_owned()),
                        );
                    }
                },
                None => {
                    proof {
                        assert(false);
                    }
                },
            }
        }
        let m = out.bytes.len();
        self.data_size = m as u64;
        let mut t: usize = 0;
        while t < m
            invariant
                t <= m,
                m == outv.bytes@.len(),
                outv == engine.outputs@[j as int],
                *out == outv,
                m <= self.location.data@.len(),
                self.location.data@.len() == old(self).location.data@.len(),
                self.data_size == m as u64,
                self.field == old(self).field,
                self.elem_size == old(self).elem_size,
                self.offsets_size == old(self).offsets_size,
                self.location.cell_offsets == old(self).location.cell_offsets,
                forall|u: int| 0 <= u < t ==> self.location.data@[u] == outv.bytes@[u],
                forall|u: int|
                    t <= u < self.location.data@.len() ==> self.location.data@[u] == old(
                        self,
                    ).location.data@[u],
            decreases m - t,
        {
            let b = out.bytes[t];
            self.location.data.set(t, b);
            t = t + 1;
        }
        proof {
            assert(self.location.data@ =~= outv.bytes@ + old(self).location.data@.skip(
                outv.bytes@.len() as int,
            ));
        }
        if let Some(ov) = &out.offsets {
            let m2 = ov.len();
            proof {
                assert(old(self).location.cell_offsets is Some);
            }
            self.offsets_size = Some((m2 as u64) * 8);
            let mut t: usize = 0;
            while t < m2
                invariant
                    t <= m2,
                    m2 == ov@.len(),
                    outv == engine.outputs@[j as int],
                    *out == outv,
                    outv.offsets == Some(*ov),
                    self.field == old(self).field,
                    self.elem_size == old(self).elem_size,
                    self.data_size == outv.bytes@.len(),
                    self.offsets_size == Some((8 * ov@.len()) as u64),
                    self.location.data@ == outv.bytes@ + old(self).location.data@.skip(
                        outv.bytes@.len() as int,
                    ),
                    old(self).location.cell_offsets matches Some(bo0)
                        && self.location.cell_offsets matches Some(bo1) && bo1@.len() == bo0@.len()
                        && m2 <= bo1@.len() && (forall|u: int|
                        0 <= u < t ==> bo1@[u] == ov@[u]) && (forall|u: int|
                        t <= u < bo1@.len() ==> bo1@[u] == bo0@[u]),
                decreases m2 - t,
            {
                let x = ov[t];
                match &mut self.location.cell_offsets {
                    Some(bo) => {
                        bo.set(t, x);
                    },
                    None => {
                        proof {
                            assert(false);
                        }
                    },
                }
                t = t + 1;
            }
            proof {
                match (&old(self).location.cell_offsets, &self.location.cell_offsets) {
                    (Some(bo0), Some(bo1)) => {
                        assert(bo1@ =~= ov@ + bo0@.skip(ov@.len() as int));
                    },
                    _ => {},
                }
            }
        }
        Ok(())
    }
}

} // verus!

verus! {

/// A query layer that can advance the engine by one bounded step.
///
/// Layers wrap one another, one per projected field, around the terminal
/// `BaseQuery`; a caller drives the outermost layer. Whatever a step
/// returns, a `ProtocolViolation` error only ever reports zero records
/// against a nonzero byte count.
pub trait ReadQuery: Sized {
    type Intermediate;

    type Final;

    /// The layer's own consistency condition, preserved by every step.
    spec fn wf(&self) -> bool;

    /// One bounded step against `engine`.
    fn step(&mut self, engine: &mut Engine) -> (r: Result<
        ReadStepOutput<Self::Intermediate, Self::Final>,
        Error,
    >)
        requires
            old(self).wf(),
            old(engine).inv(),
        ensures
            final(self).wf(),
            final(engine).inv(),
            final(engine).fields@.len() == old(engine).fields@.len(),
            r matches Err(e) ==> (e matches Error::ProtocolViolation { records, bytes }
                ==> records == 0 && bytes > 0),
    ;
}

/// The terminal layer of a query: it delegates directly to the engine and
/// maps the step status, `Complete` to `Final` and `Incomplete` to
/// `Intermediate`. It never reports `NotEnoughSpace` itself; the field
/// layers above reclassify from their own counters.
pub struct BaseQuery {}

impl ReadQuery for BaseQuery {
    type Intermediate = ();

    type Final = ();

    open spec fn wf(&self) -> bool {
        true
    }

    fn step(&mut self, engine: &mut Engine) -> (r: Result<ReadStepOutput<(), ()>, Error>)
        ensures
            r is Err <==> old(engine).registrations@.len() == 0,
            r is Err ==> *final(engine) == *old(engine),
            r is Ok ==> advance_transition(*old(engine), *final(engine)),
            r matches Ok(o) ==> ((o is Final) <==> advance_complete(*old(engine))),
            r matches Ok(o) ==> !(o is NotEnoughSpace),
    {
        match engine.advance_query() {
            Ok(StepStatus::Complete) => Ok(ReadStepOutput::Final(())),
            Ok(StepStatus::Incomplete) => Ok(ReadStepOutput::Intermediate(())),
            Err(e) => Err(e),
        }
    }
}

/// Reads one field's step results into raw destination buffers while
/// delegating the step itself to a wrapped inner query.
///
/// This layer is a pure decorator: each layer registers its own buffers
/// before the inner step, reads its own counters back afterwards, and
/// augments the inner payload with its `(records, bytes)` pair, outermost
/// pair first. No layer's classification inspects another field's counters.
pub struct RawReadQuery<Q> {
    /// Buffers and size counters for this layer's field.
    pub raw_read_output: RawReadHandle,
    /// The wrapped inner query.
    pub base: Q,
}

impl<Q: ReadQuery> ReadQuery for RawReadQuery<Q> {
    type Intermediate = (usize, usize, Q::Intermediate);

    type Final = (usize, usize, Q::Final);

    open spec fn wf(&self) -> bool {
        self.raw_read_output.wf() && self.base.wf()
    }

    fn step(&mut self, engine: &mut Engine) -> (r: Result<
        ReadStepOutput<(usize, usize, Q::Intermediate), (usize, usize, Q::Final)>,
        Error,
    >)
        ensures
            final(self).raw_read_output.field == old(self).raw_read_output.field,
            final(self).raw_read_output.elem_size == old(self).raw_read_output.elem_size,
            final(self).raw_read_output.location.data@.len()
                == old(self).raw_read_output.location.data@.len(),
            (match (
                final(self).raw_read_output.location.cell_offsets,
                old(self).raw_read_output.location.cell_offsets,
            ) {
                (Some(a), Some(b)) => a@.len() == b@.len(),
                (None, None) => true,
                _ => false,
            }),
            final(self).raw_read_output.data_size
                <= old(self).raw_read_output.location.data@.len(),
            (match (
                final(self).raw_read_output.offsets_size,
                old(self).raw_read_output.location.cell_offsets,
            ) {
                (Some(sz), Some(offs)) => sz <= 8 * offs@.len(),
                (None, None) => true,
                _ => false,
            }),
            !has_field(old(engine).fields@, old(self).raw_read_output.field@) ==> r is Err,
            r is Ok ==> collect_fits(*final(engine), old(self).raw_read_output),
            r is Ok ==> collected(
                *final(engine),
                old(self).raw_read_output,
                final(self).raw_read_output,
            ),
            r matches Ok(o) ==> (o matches ReadStepOutput::Intermediate(p) ==> ((p.0, p.1)
                == final(self).raw_read_output.spec_last_read_size() && p.0 > 0)),
            r matches Ok(o) ==> (o matches ReadStepOutput::Final(p) ==> (p.0, p.1)
                == final(self).raw_read_output.spec_last_read_size()),
    {
        self.raw_read_output.attach_query(engine)?;
        let base_result = self.base.step(engine)?;
        self.raw_read_output.collect_output(engine)?;
        let (nvalues, nbytes) = self.raw_read_output.last_read_size();
        classify_step(base_result, nvalues, nbytes)
    }
}

/// Creates a query, consuming the builder: each layer builds its inner
/// layers first, then wraps the result.
pub trait QueryBuilder: Sized {
    type Query: ReadQuery;

    /// The builder's own consistency condition.
    spec fn wf(&self) -> bool;

    /// Builds the composed query.
    fn build(self) -> (q: Self::Query)
        requires
            self.wf(),
        ensures
            q.wf(),
    ;
}

/// The terminal builder, producing the base query.
pub struct BaseBuilder {}

impl QueryBuilder for BaseBuilder {
    type Query = BaseQuery;

    open spec fn wf(&self) -> bool {
        true
    }

    fn build(self) -> (q: BaseQuery) {
        BaseQuery {  }
    }
}

/// Adds raw reads of one field to a query under construction; building
/// wraps the inner layers with this field's handle.
pub struct RawReadBuilder<B> {
    /// Buffers and size counters for the added field.
    pub raw_read_output: RawReadHandle,
    /// The builder for the wrapped inner layers.
    pub base: B,
}

impl<B: QueryBuilder> QueryBuilder for RawReadBuilder<B> {
    type Query = RawReadQuery<B::Query>;

    open spec fn wf(&self) -> bool {
        self.raw_read_output.wf() && self.base.wf()
    }

    fn build(self) -> (q: RawReadQuery<B::Query>)
        ensures
            q.raw_read_output == self.raw_read_output,
    {
        RawReadQuery { raw_read_output: self.raw_read_output, base: self.base.build() }
    }
}

} // verus!

verus! {

/// Shape of `upsert_data`: the registration for `idx` carries the new data
/// capacity and the previously registered offsets capacity (or none), every
/// other registration is untouched, and targets stay pairwise distinct.
proof fn lemma_upsert_data_shape(
    fields: Seq<EngineField>,
    regs: Seq<Registration>,
    idx: usize,
    cap: u64,
)
    requires
        regs_wf(fields, regs),
        idx < fields.len(),
    ensures
        regs_wf(fields, upsert_data(regs, idx, cap)),
        has_reg(upsert_data(regs, idx, cap), idx as int),
        ({
            let r1 = upsert_data(regs, idx, cap);
            let p = reg_pos(r1, idx as int);
            &&& 0 <= p < r1.len()
            &&& r1[p] == (Registration {
                field_index: idx,
                data_capacity: cap,
                offsets_capacity: (if has_reg(regs, idx as int) {
                    regs[reg_pos(regs, idx as int)].offsets_capacity
                } else {
                    None
                }),
            })
            &&& forall|a: int| 0 <= a < r1.len() && a != p ==> r1[a] == regs[a]
        }),
{
    let r1 = upsert_data(regs, idx, cap);
    if has_reg(regs, idx as int) {
        let j = reg_pos(regs, idx as int);
        assert(0 <= j < regs.len() && regs[j].field_index == idx);
        assert forall|a: int, b: int|
            0 <= a < r1.len() && 0 <= b < r1.len() && a != b implies r1[a].field_index
            != r1[b].field_index by {
            assert(regs[a].field_index != regs[b].field_index);
        }
        assert forall|a: int| 0 <= a < r1.len() implies (#[trigger] r1[a]).field_index
            < fields.len() by {
            assert(regs[a].field_index < fields.len());
        }
        lemma_reg_pos_unique(r1, idx as int, j);
    } else {
        assert forall|a: int, b: int|
            0 <= a < r1.len() && 0 <= b < r1.len() && a != b implies r1[a].field_index
            != r1[b].field_index by {
            if a < regs.len() && b < regs.len() {
                assert(regs[a].field_index != regs[b].field_index);
            } else if a < regs.len() {
                assert(regs[a].field_index != idx);
            } else {
                assert(regs[b].field_index != idx);
            }
        }
        assert forall|a: int| 0 <= a < r1.len() implies (#[trigger] r1[a]).field_index
            < fields.len() by {
            if a < regs.len() {
                assert(regs[a].field_index < fields.len());
            }
        }
        lemma_reg_pos_unique(r1, idx as int, regs.len() as int);
    }
}

/// Shape of `upsert_offsets`, mirroring `lemma_upsert_data_shape`.
proof fn lemma_upsert_offsets_shape(
    fields: Seq<EngineField>,
    regs: Seq<Registration>,
    idx: usize,
    ocap: u64,
)
    requires
        regs_wf(fields, regs),
        idx < fields.len(),
    ensures
        regs_wf(fields, upsert_offsets(regs, idx, ocap)),
        has_reg(upsert_offsets(regs, idx, ocap), idx as int),
        ({
            let r1 = upsert_offsets(regs, idx, ocap);
            let p = reg_pos(r1, idx as int);
            &&& 0 <= p < r1.len()
            &&& r1[p] == (Registration {
                field_index: idx,
                data_capacity: (if has_reg(regs, idx as int) {
                    regs[reg_pos(regs, idx as int)].data_capacity
                } else {
                    0
                }),
                offsets_capacity: Some(ocap),
            })
            &&& forall|a: int| 0 <= a < r1.len() && a != p ==> r1[a] == regs[a]
        }),
{
    let r1 = upsert_offsets(regs, idx, ocap);
    if has_reg(regs, idx as int) {
        let j = reg_pos(regs, idx as int);
        assert(0 <= j < regs.len() && regs[j].field_index == idx);
        assert forall|a: int, b: int|
            0 <= a < r1.len() && 0 <= b < r1.len() && a != b implies r1[a].field_index
            != r1[b].field_index by {
            assert(regs[a].field_index != regs[b].field_index);
        }
        assert forall|a: int| 0 <= a < r1.len() implies (#[trigger] r1[a]).field_index
            < fields.len() by {
            assert(regs[a].field_index < fields.len());
        }
        lemma_reg_pos_unique(r1, idx as int, j);
    } else {
        assert forall|a: int, b: int|
            0 <= a < r1.len() && 0 <= b < r1.len() && a != b implies r1[a].field_index
            != r1[b].field_index by {
            if a < regs.len() && b < regs.len() {
                assert(regs[a].field_index != regs[b].field_index);
            } else if a < regs.len() {
                assert(regs[a].field_index != idx);
            } else {
                assert(regs[b].field_index != idx);
            }
        }
        assert forall|a: int| 0 <= a < r1.len() implies (#[trigger] r1[a]).field_index
            < fields.len() by {
            if a < regs.len() {
                assert(regs[a].field_index < fields.len());
            }
        }
        lemma_reg_pos_unique(r1, idx as int, regs.len() as int);
    }
}

/// Law: re-attachment is idempotent. With unchanged buffer capacities, a
/// second attach before a single step leaves the engine's registrations
/// exactly as the first attach left them. An attach also resets the
/// handle's size counters from those same capacities, so the state a step
/// starts from — and with it the step's outcome — is unchanged by the
/// second attach.
pub proof fn lemma_attach_idempotent(
    fields: Seq<EngineField>,
    regs: Seq<Registration>,
    h: RawReadHandle,
)
    requires
        fields_wf(fields),
        regs_wf(fields, regs),
        has_field(fields, h.field@),
    ensures
        attach_regs(fields, attach_regs(fields, regs, h), h) == attach_regs(fields, regs, h),
{
    let idx0 = field_index_of(fields, h.field@);
    assert(0 <= idx0 < fields.len() && fields[idx0].name@ == h.field@);
    let idx = idx0 as usize;
    let cap = h.location.data@.len() as u64;
    let r1 = upsert_data(regs, idx, cap);
    lemma_upsert_data_shape(fields, regs, idx, cap);
    match h.location.cell_offsets {
        Some(offs) => {
            let oc = (8 * offs@.len()) as u64;
            let r2 = upsert_offsets(r1, idx, oc);
            lemma_upsert_offsets_shape(fields, r1, idx, oc);
            let p = reg_pos(r2, idx as int);
            assert(r2[p] == (Registration {
                field_index: idx,
                data_capacity: cap,
                offsets_capacity: Some(oc),
            }));
            let r3 = upsert_data(r2, idx, cap);
            lemma_upsert_data_shape(fields, r2, idx, cap);
            assert forall|a: int| 0 <= a < r3.len() implies r3[a] == r2[a] by {
                if a == reg_pos(r3, idx as int) {
                    assert(r3[a] == r2[p]);
                }
            }
            assert(r3 =~= r2);
            let r4 = upsert_offsets(r3, idx, oc);
            lemma_upsert_offsets_shape(fields, r3, idx, oc);
            assert forall|a: int| 0 <= a < r4.len() implies r4[a] == r3[a] by {
                if a == reg_pos(r4, idx as int) {
                    assert(r4[a] == r3[reg_pos(r3, idx as int)]);
                }
            }
            assert(r4 =~= r3);
        },
        None => {
            let r3 = upsert_data(r1, idx, cap);
            lemma_upsert_data_shape(fields, r1, idx, cap);
            let p = reg_pos(r1, idx as int);
            assert forall|a: int| 0 <= a < r3.len() implies r3[a] == r1[a] by {
                if a == reg_pos(r3, idx as int) {
                    assert(r3[a] == r1[p]);
                }
            }
            assert(r3 =~= r1);
        },
    }
}

} // verus!
