use vstd::prelude::*;

use crate::context::Context;
use crate::error::Error;
use crate::error::TileDBResult;
use crate::filter::Filter;

verus! {

/// An ordered pipeline of filters applied to one field's data.
#[derive(Debug)]
pub struct FilterList {
    pub filters: Vec<Filter>,
}

impl FilterList {
    /// The filter count stays representable on the engine call surface,
    /// which reports it as a 32-bit count.
    pub open spec fn wf(&self) -> bool {
        self.filters@.len() <= u32::MAX
    }

    /// An empty pipeline.
    pub fn new(_ctx: &Context) -> (r: TileDBResult<FilterList>)
        ensures
            r matches Ok(fl) && fl.filters@.len() == 0 && fl.wf(),
    {
        Ok(FilterList { filters: Vec::new() })
    }

    /// Appends a copy of `filter` to the pipeline. Fails only when the
    /// pipeline already holds the largest representable number of filters.
    pub fn add_filter(&mut self, _ctx: &Context, filter: &Filter) -> (r: TileDBResult<()>)
        requires
            old(self).wf(),
        ensures
            final(self).wf(),
            r is Ok <==> old(self).filters@.len() < u32::MAX,
            r is Ok ==> final(self).filters@ == old(self).filters@.push(*filter),
            r is Err ==> *final(self) == *old(self),
    {
        if self.filters.len() >= u32::MAX as usize {
            return Err(Error::Engine("the filter pipeline is full".to_owned()));
        }
        self.filters.push(*filter);
        Ok(())
    }

    /// The number of filters in the pipeline.
    pub fn get_num_filters(&self, _ctx: &Context) -> (r: TileDBResult<u32>)
        requires
            self.wf(),
        ensures
            r matches Ok(n) && n == self.filters@.len(),
    {
        Ok(self.filters.len() as u32)
    }
}

impl Default for FilterList {
    /// An empty pipeline.
    fn default() -> (r: FilterList)
        ensures
            r.filters@.len() == 0,
            r.wf(),
    {
        FilterList { filters: Vec::new() }
    }
}

} // verus!
