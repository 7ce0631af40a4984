use tiledb_query::attribute::Attribute;
use tiledb_query::context::Context;
use tiledb_query::datatype::Datatype;
use tiledb_query::filter::Filter;
use tiledb_query::filter::FilterType;
use tiledb_query::filter_list::FilterList;

#[test]
fn attribute_alloc() {
    let ctx = Context::new().expect("Error creating context instance.");
    Attribute::new(&ctx, "foo", Datatype::UInt64).expect("Error creating attribute instance.");
}

#[test]
fn attribute_get_name_and_type() {
    let ctx = Context::new().expect("Error creating context instance.");
    let attr = Attribute::new(&ctx, "xkcd", Datatype::UInt32)
        .expect("Error creating attribute instance.");

    let name = attr.name(&ctx).expect("Error getting attribute name.");
    assert_eq!(&name, "xkcd");

    let dtype = attr
        .datatype(&ctx)
        .expect("Error getting attribute datatype.");
    assert_eq!(dtype, Datatype::UInt32);
}

#[test]
fn attribute_set_nullable() {
    let ctx = Context::new().expect("Error creating context instance.");
    let mut attr = Attribute::new(&ctx, "foo", Datatype::UInt64)
        .expect("Error creating attribute instance.");

    let nullable = attr
        .get_nullable(&ctx)
        .expect("Error getting attribute nullability.");
    assert!(!nullable);

    attr.set_nullable(&ctx, true)
        .expect("Error setting attribute nullability.");

    let nullable = attr
        .get_nullable(&ctx)
        .expect("Error getting attribute nullability.");
    assert!(nullable);
}

#[test]
fn attribute_get_set_filter_list() {
    let ctx = Context::new().expect("Error creating context instance.");
    let mut attr = Attribute::new(&ctx, "foo", Datatype::UInt8)
        .expect("Error creating attribute instance.");

    let flist1 = attr
        .get_filter_list(&ctx)
        .expect("Error getting attribute filter list.");
    let nfilters = flist1
        .get_num_filters(&ctx)
        .expect("Error getting number of filters.");
    assert_eq!(nfilters, 0);

    let f1 = Filter::new(&ctx, FilterType::NONE).expect("Error creating filter 1.");
    let f2 = Filter::new(&ctx, FilterType::BIT_WIDTH_REDUCTION).expect("Error creating filter 2.");
    let f3 = Filter::new(&ctx, FilterType::ZSTD).expect("Error creating filter 3.");
    let mut flist2 = FilterList::new(&ctx).expect("Error creating filter list.");
    flist2
        .add_filter(&ctx, &f1)
        .expect("Error adding filter 1 to list.");
    flist2
        .add_filter(&ctx, &f2)
        .expect("Error adding filter 2 to list.");
    flist2
        .add_filter(&ctx, &f3)
        .expect("Error adding filter 3 to list.");

    attr.set_filter_list(&ctx, &flist2)
        .expect("Error setting filter list.");

    let flist3 = attr.get_filter_list(&ctx).expect("Error getting filter list.");
    let nfilters = flist3
        .get_num_filters(&ctx)
        .expect("Error getting number of filters.");
    assert_eq!(nfilters, 3);
}

#[test]
fn attribute_cell_val_size() {
    let ctx = Context::new().expect("Error creating context instance.");
    let mut attr = Attribute::new(&ctx, "foo", Datatype::UInt16)
        .expect("Error creating attribute instance.");

    let num = attr
        .get_cell_val_num(&ctx)
        .expect("Error getting cell val num.");
    assert_eq!(num, 1);
    let size = attr
        .get_cell_size(&ctx)
        .expect("Error getting attribute cell size.");
    assert_eq!(size, 2);

    attr.set_cell_val_num(&ctx, 3)
        .expect("Error setting cell val num.");
    let num = attr
        .get_cell_val_num(&ctx)
        .expect("Error getting cell val num.");
    assert_eq!(num, 3);
    let size = attr
        .get_cell_size(&ctx)
        .expect("Error getting attribute cell size.");
    assert_eq!(size, 6);

    attr.set_cell_val_num(&ctx, u32::MAX)
        .expect("Error setting cell val size.");
    let is_var = attr
        .is_var_sized(&ctx)
        .expect("Error getting attribute var sized-ness.");
    assert!(is_var);

    attr.set_cell_val_num(&ctx, 42)
        .expect("Error setting cell val num.");
    let num = attr
        .get_cell_val_num(&ctx)
        .expect("Error getting cell val num.");
    assert_eq!(num, 42);
    let size = attr
        .get_cell_size(&ctx)
        .expect("Error getting cell val size.");
    assert_eq!(size, 84);

    attr.set_var_sized(&ctx)
        .expect("Error setting attribute to var sized.");
    let num = attr
        .get_cell_val_num(&ctx)
        .expect("Error getting cell val num.");
    assert_eq!(num, u32::MAX);
    let size = attr
        .get_cell_size(&ctx)
        .expect("Error getting cell val size.");
    assert_eq!(size, u64::MAX);
}
