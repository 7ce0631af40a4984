use tiledb_query::context::Context;
use tiledb_query::datatype::Datatype;
use tiledb_query::filter::Filter;
use tiledb_query::filter::FilterType;
use tiledb_query::filter::WebPFilterInputFormat;

#[test]
fn filter_alloc() {
    let ctx = Context::new().expect("Error creating context instance.");
    for i in 0..255 {
        if let Some(ft) = FilterType::from_u32(i) {
            let f = Filter::new(&ctx, ft.clone()).expect("Error creating filter.");
            let ftype = f.get_type(&ctx).expect("Error getting filter type.");
            assert_eq!(ft, ftype);
        }
    }
}

#[test]
fn filter_get_set_compression_options() {
    let ctx = Context::new().expect("Error creating context instance.");
    let mut f = Filter::new(&ctx, FilterType::ZSTD).expect("Error creating zstd filter.");

    f.set_compression_level(&ctx, 23)
        .expect("Error setting compression level");
    let level = f
        .get_compression_level(&ctx)
        .expect("Error getting compression level.");
    assert_eq!(level, 23);

    f.set_compression_reinterpret_datatype(&ctx, Datatype::UInt16)
        .expect("Error setting compression reinterpret datatype.");
    let dt = f
        .get_compression_reinterpret_datatype(&ctx)
        .expect("Error getting compression reinterpret datatype");
    assert_eq!(dt, Datatype::UInt16);
}

#[test]
fn filter_get_set_bit_width_reduction_options() {
    let ctx = Context::new().expect("Error creating context instance.");
    let mut f = Filter::new(&ctx, FilterType::BIT_WIDTH_REDUCTION)
        .expect("Error creating bit width reduction filter.");

    f.set_bit_width_max_window(&ctx, 75)
        .expect("Error setting bit width max window size.");
    let size = f
        .get_bit_width_max_window(&ctx)
        .expect("Error getting bit width max window size.");
    assert_eq!(size, 75);
}

#[test]
fn filter_get_set_positive_delta_options() {
    let ctx = Context::new().expect("Error creating context instance.");
    let mut f = Filter::new(&ctx, FilterType::POSITIVE_DELTA)
        .expect("Error creating positive delta filter.");

    f.set_positive_delta_max_window(&ctx, 75)
        .expect("Error setting positive delta max window size.");
    let size = f
        .get_positive_delta_max_window(&ctx)
        .expect("Error getting positive delta max window size.");
    assert_eq!(size, 75);
}

#[test]
fn filter_get_set_float_bytewidth() {
    let ctx = Context::new().expect("Error creating context instance.");
    let mut f =
        Filter::new(&ctx, FilterType::SCALE_FLOAT).expect("Error creating scale float filter.");

    f.set_float_bytewidth(&ctx, 2)
        .expect("Error setting float bytewidth.");
    let width = f
        .get_float_bytewidth(&ctx)
        .expect("Error getting float bytewidth.");
    assert_eq!(width, 2);
}

#[test]
fn filter_get_set_webp_discrete_options() {
    let ctx = Context::new().expect("Error creating context instance.");
    let mut f = Filter::new(&ctx, FilterType::WEBP).expect("Error creating webp filter.");

    f.set_webp_input_format(&ctx, WebPFilterInputFormat::BGRA)
        .expect("Error setting webp input format.");
    let fmt = f
        .get_webp_input_format(&ctx)
        .expect("Error getting webp input format.");
    assert_eq!(fmt, WebPFilterInputFormat::BGRA);

    f.set_webp_lossless(&ctx, true)
        .expect("Error setting webp lossless.");
    let lossless = f
        .get_webp_lossless(&ctx)
        .expect("Error getting webp lossless.");
    assert!(lossless);
}
