use vstd::prelude::*;

use crate::context::Context;
use crate::datatype::Datatype;
use crate::error::TileDBResult;
use crate::filter::Filter;
use crate::filter_list::FilterList;

verus! {

/// A named projection of a query: one attribute of the schema, with its
/// datatype, nullability, cells-per-value count and filter pipeline.
#[derive(Debug)]
pub struct Attribute {
    pub name: String,
    pub datatype: Datatype,
    pub nullable: bool,
    pub cell_val_num: u32,
    pub filter_list: FilterList,
}

impl Attribute {
    /// The cell size an attribute reports: unbounded for a variable-sized
    /// attribute, otherwise the values-per-cell count times the datatype's
    /// value size.
    pub open spec fn spec_cell_size(&self) -> u64 {
        if self.cell_val_num == u32::MAX {
            u64::MAX
        } else {
            (self.cell_val_num * self.datatype.spec_size()) as u64
        }
    }

    /// A new attribute: not nullable, one value per cell, and an empty
    /// filter pipeline.
    pub fn new(_ctx: &Context, name: &str, datatype: Datatype) -> (r: TileDBResult<Attribute>)
        ensures
            r matches Ok(a) ==> {
                &&& a.name@ == name@
                &&& a.datatype == datatype
                &&& !a.nullable
                &&& a.cell_val_num == 1
                &&& a.filter_list.filters@.len() == 0
                &&& a.filter_list.wf()
            },
            r is Ok,
    {
        Ok(
            Attribute {
                name: name.to_owned(),
                datatype,
                nullable: false,
                cell_val_num: 1,
                filter_list: FilterList { filters: Vec::new() },
            },
        )
    }

    /// The attribute's name.
    pub fn name(&self, _ctx: &Context) -> (r: TileDBResult<String>)
        ensures
            r matches Ok(s) && s@ == self.name@,
    {
        Ok(self.name.clone())
    }

    /// The attribute's datatype.
    pub fn datatype(&self, _ctx: &Context) -> (r: TileDBResult<Datatype>)
        ensures
            r matches Ok(d) && d == self.datatype,
    {
        Ok(self.datatype)
    }

    /// Sets whether cells of this attribute can be null.
    pub fn set_nullable(&mut self, _ctx: &Context, nullable: bool) -> (r: TileDBResult<()>)
        ensures
            r is Ok,
            final(self).nullable == nullable,
            final(self).name == old(self).name,
            final(self).datatype == old(self).datatype,
            final(self).cell_val_num == old(self).cell_val_num,
            final(self).filter_list.filters@ == old(self).filter_list.filters@,
    {
        self.nullable = nullable;
        Ok(())
    }

    /// Whether cells of this attribute can be null.
    pub fn get_nullable(&self, _ctx: &Context) -> (r: TileDBResult<bool>)
        ensures
            r matches Ok(b) && b == self.nullable,
    {
        Ok(self.nullable)
    }

    /// Replaces the attribute's filter pipeline with a copy of
    /// `filter_list`.
    pub fn set_filter_list(&mut self, _ctx: &Context, filter_list: &FilterList) -> (r:
        TileDBResult<()>)
        ensures
            r is Ok,
            final(self).filter_list.filters@ == filter_list.filters@,
            final(self).name == old(self).name,
            final(self).datatype == old(self).datatype,
            final(self).nullable == old(self).nullable,
            final(self).cell_val_num == old(self).cell_val_num,
    {
        let n = filter_list.filters.len();
        let mut filters: Vec<Filter> = Vec::new();
        let mut i: usize = 0;
        while i < n
            invariant
                i <= n,
                n == filter_list.filters@.len(),
                filters@.len() == i,
                forall|k: int| 0 <= k < i ==> filters@[k] == filter_list.filters@[k],
            decreases n - i,
        {
            filters.push(filter_list.filters[i]);
            i = i + 1;
        }
        proof {
            assert(filters@ =~= filter_list.filters@);
        }
        self.filter_list = FilterList { filters };
        Ok(())
    }

    /// A copy of the attribute's filter pipeline.
    pub fn get_filter_list(&self, _ctx: &Context) -> (r: TileDBResult<FilterList>)
        ensures
            r matches Ok(fl) && fl.filters@ == self.filter_list.filters@,
    {
        let n = self.filter_list.filters.len();
        let mut filters: Vec<Filter> = Vec::new();
        let mut i: usize = 0;
        while i < n
            invariant
                i <= n,
                n == self.filter_list.filters@.len(),
                filters@.len() == i,
                forall|k: int| 0 <= k < i ==> filters@[k] == self.filter_list.filters@[k],
            decreases n - i,
        {
            filters.push(self.filter_list.filters[i]);
            i = i + 1;
        }
        proof {
            assert(filters@ =~= self.filter_list.filters@);
        }
        Ok(FilterList { filters })
    }

    /// Marks the attribute variable-sized: its cells-per-value count
    /// becomes the sentinel for "variable".
    pub fn set_var_sized(&mut self, ctx: &Context) -> (r: TileDBResult<()>)
        ensures
            r is Ok,
            final(self).cell_val_num == u32::MAX,
            final(self).name == old(self).name,
            final(self).datatype == old(self).datatype,
            final(self).nullable == old(self).nullable,
            final(self).filter_list.filters@ == old(self).filter_list.filters@,
    {
        self.set_cell_val_num(ctx, u32::MAX)
    }

    /// Whether the attribute is variable-sized.
    pub fn is_var_sized(&self, ctx: &Context) -> (r: TileDBResult<bool>)
        ensures
            r matches Ok(b) && b == (self.cell_val_num == u32::MAX),
    {
        match self.get_cell_val_num(ctx) {
            Ok(num) => Ok(num == u32::MAX),
            Err(e) => Err(e),
        }
    }

    /// Sets how many values one cell of this attribute holds; the largest
    /// representable count marks the attribute variable-sized.
    pub fn set_cell_val_num(&mut self, _ctx: &Context, num: u32) -> (r: TileDBResult<()>)
        ensures
            r is Ok,
            final(self).cell_val_num == num,
            final(self).name == old(self).name,
            final(self).datatype == old(self).datatype,
            final(self).nullable == old(self).nullable,
            final(self).filter_list.filters@ == old(self).filter_list.filters@,
    {
        self.cell_val_num = num;
        Ok(())
    }

    /// How many values one cell of this attribute holds.
    pub fn get_cell_val_num(&self, _ctx: &Context) -> (r: TileDBResult<u32>)
        ensures
            r matches Ok(n) && n == self.cell_val_num,
    {
        Ok(self.cell_val_num)
    }

    /// The size in bytes of one cell of this attribute.
    pub fn get_cell_size(&self, _ctx: &Context) -> (r: TileDBResult<u64>)
        ensures
            r matches Ok(v) && v == self.spec_cell_size(),
    {
        if self.cell_val_num == u32::MAX {
            Ok(u64::MAX)
        } else {
            let sz = self.datatype.size();
            Ok((self.cell_val_num as u64) * sz)
        }
    }
}

} // verus!
