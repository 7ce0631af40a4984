use vstd::prelude::*;

verus! {

/// Caller-offered destination memory for one field.
///
/// `data` receives the raw bytes of a step's results. For a variable-length
/// field, `cell_offsets` receives one 8-byte start marker per delivered
/// value. The buffers' lengths are the capacities offered to the engine; a
/// step never writes past them.
#[derive(Debug)]
pub struct QueryBuffers {
    pub data: Vec<u8>,
    pub cell_offsets: Option<Vec<u64>>,
}

impl QueryBuffers {
    /// Capacity in bytes of the data buffer.
    pub open spec fn data_capacity(&self) -> int {
        self.data@.len() as int
    }

    /// Capacity in bytes of the offsets buffer, or zero when the field has
    /// none.
    pub open spec fn offsets_capacity(&self) -> int {
        match self.cell_offsets {
            Some(offs) => 8 * offs@.len() as int,
            None => 0,
        }
    }
}

} // verus!
