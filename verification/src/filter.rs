use vstd::prelude::*;

use crate::context::Context;
use crate::datatype::Datatype;
use crate::error::TileDBResult;

verus! {

/// The filters a pipeline can apply to a field's data.
#[allow(non_camel_case_types)]
#[derive(Debug, Clone, Copy, PartialEq, Eq, Structural)]
pub enum FilterType {
    NONE,
    GZIP,
    ZSTD,
    LZ4,
    RLE,
    BZIP2,
    DOUBLE_DELTA,
    BIT_WIDTH_REDUCTION,
    BITSHUFFLE,
    BYTESHUFFLE,
    POSITIVE_DELTA,
    CHECKSUM_MD5,
    CHECKSUM_SHA256,
    DICTIONARY,
    SCALE_FLOAT,
    XOR,
    WEBP,
}

impl FilterType {
    /// The numeric code of this filter type on the engine call surface.
    pub open spec fn spec_to_u32(self) -> u32 {
        match self {
            FilterType::NONE => 0,
            FilterType::GZIP => 1,
            FilterType::ZSTD => 2,
            FilterType::LZ4 => 3,
            FilterType::RLE => 4,
            FilterType::BZIP2 => 5,
            FilterType::DOUBLE_DELTA => 6,
            FilterType::BIT_WIDTH_REDUCTION => 7,
            FilterType::BITSHUFFLE => 8,
            FilterType::BYTESHUFFLE => 9,
            FilterType::POSITIVE_DELTA => 10,
            FilterType::CHECKSUM_MD5 => 12,
            FilterType::CHECKSUM_SHA256 => 13,
            FilterType::DICTIONARY => 14,
            FilterType::SCALE_FLOAT => 15,
            FilterType::XOR => 16,
            FilterType::WEBP => 18,
        }
    }

    /// The filter type a numeric code names, when it names one.
    pub fn from_u32(value: u32) -> (r: Option<FilterType>)
        ensures
            r matches Some(ft) ==> ft.spec_to_u32() == value,
            r is None ==> forall|ft: FilterType| ft.spec_to_u32() != value,
    {
        match value {
            0 => Some(FilterType::NONE),
            1 => Some(FilterType::GZIP),
            2 => Some(FilterType::ZSTD),
            3 => Some(FilterType::LZ4),
            4 => Some(FilterType::RLE),
            5 => Some(FilterType::BZIP2),
            6 => Some(FilterType::DOUBLE_DELTA),
            7 => Some(FilterType::BIT_WIDTH_REDUCTION),
            8 => Some(FilterType::BITSHUFFLE),
            9 => Some(FilterType::BYTESHUFFLE),
            10 => Some(FilterType::POSITIVE_DELTA),
            12 => Some(FilterType::CHECKSUM_MD5),
            13 => Some(FilterType::CHECKSUM_SHA256),
            14 => Some(FilterType::DICTIONARY),
            15 => Some(FilterType::SCALE_FLOAT),
            16 => Some(FilterType::XOR),
            18 => Some(FilterType::WEBP),
            _ => None,
        }
    }
}

/// Pixel layouts the WebP filter accepts as input.
#[allow(non_camel_case_types)]
#[derive(Debug, Clone, Copy, PartialEq, Eq, Structural)]
pub enum WebPFilterInputFormat {
    NONE,
    RGB,
    BGR,
    RGBA,
    BGRA,
}

/// The option values a filter carries. Options whose values are floating
/// point (the scale-float factor and offset, the WebP quality) live with
/// the engine and are not modelled here.
#[derive(Debug, Clone, Copy)]
pub struct FilterData {
    pub filter_type: FilterType,
    pub compression_level: i32,
    pub bit_width_max_window: u32,
    pub positive_delta_max_window: u32,
    pub float_bytewidth: u64,
    pub webp_input_format: WebPFilterInputFormat,
    pub webp_lossless: bool,
    pub compression_reinterpret_datatype: Datatype,
}

/// One filter in a pipeline, holding its type and option values.
#[derive(Debug, Clone, Copy)]
pub struct Filter {
    pub raw: FilterData,
}

impl Filter {
    /// A filter of the given type with the default option values.
    pub fn new(_ctx: &Context, filter_type: FilterType) -> (r: TileDBResult<Filter>)
        ensures
            r matches Ok(f) && f.raw == (FilterData {
                filter_type,
                compression_level: -1i32,
                bit_width_max_window: 256,
                positive_delta_max_window: 1024,
                float_bytewidth: 8,
                webp_input_format: WebPFilterInputFormat::NONE,
                webp_lossless: false,
                compression_reinterpret_datatype: Datatype::Any,
            }),
    {
        Ok(
            Filter {
                raw: FilterData {
                    filter_type,
                    compression_level: -1,
                    bit_width_max_window: 256,
                    positive_delta_max_window: 1024,
                    float_bytewidth: 8,
                    webp_input_format: WebPFilterInputFormat::NONE,
                    webp_lossless: false,
                    compression_reinterpret_datatype: Datatype::Any,
                },
            },
        )
    }

    /// The filter's raw state, as handed to the engine call surface.
    pub fn capi(&self) -> (r: &FilterData)
        ensures
            *r == self.raw,
    {
        &self.raw
    }

    /// The filter's type.
    pub fn get_type(&self, _ctx: &Context) -> (r: TileDBResult<FilterType>)
        ensures
            r matches Ok(t) && t == self.raw.filter_type,
    {
        Ok(self.raw.filter_type)
    }

    /// Sets the compression level option.
    pub fn set_compression_level(&mut self, _ctx: &Context, level: i32) -> (r: TileDBResult<()>)
        ensures
            r is Ok,
            final(self).raw == (FilterData { compression_level: level, ..old(self).raw }),
    {
        self.raw.compression_level = level;
        Ok(())
    }

    /// The compression level option.
    pub fn get_compression_level(&self, _ctx: &Context) -> (r: TileDBResult<i32>)
        ensures
            r matches Ok(v) && v == self.raw.compression_level,
    {
        Ok(self.raw.compression_level)
    }

    /// Sets the bit-width reduction maximum window size.
    pub fn set_bit_width_max_window(&mut self, _ctx: &Context, size: u32) -> (r: TileDBResult<()>)
        ensures
            r is Ok,
            final(self).raw == (FilterData { bit_width_max_window: size, ..old(self).raw }),
    {
        self.raw.bit_width_max_window = size;
        Ok(())
    }

    /// The bit-width reduction maximum window size.
    pub fn get_bit_width_max_window(&self, _ctx: &Context) -> (r: TileDBResult<u32>)
        ensures
            r matches Ok(v) && v == self.raw.bit_width_max_window,
    {
        Ok(self.raw.bit_width_max_window)
    }

    /// Sets the positive-delta maximum window size.
    pub fn set_positive_delta_max_window(&mut self, _ctx: &Context, size: u32) -> (r:
        TileDBResult<()>)
        ensures
            r is Ok,
            final(self).raw == (FilterData { positive_delta_max_window: size, ..old(self).raw }),
    {
        self.raw.positive_delta_max_window = size;
        Ok(())
    }

    /// The positive-delta maximum window size.
    pub fn get_positive_delta_max_window(&self, _ctx: &Context) -> (r: TileDBResult<u32>)
        ensures
            r matches Ok(v) && v == self.raw.positive_delta_max_window,
    {
        Ok(self.raw.positive_delta_max_window)
    }

    /// Sets the scale-float byte width.
    pub fn set_float_bytewidth(&mut self, _ctx: &Context, width: u64) -> (r: TileDBResult<()>)
        ensures
            r is Ok,
            final(self).raw == (FilterData { float_bytewidth: width, ..old(self).raw }),
    {
        self.raw.float_bytewidth = width;
        Ok(())
    }

    /// The scale-float byte width.
    pub fn get_float_bytewidth(&self, _ctx: &Context) -> (r: TileDBResult<u64>)
        ensures
            r matches Ok(v) && v == self.raw.float_bytewidth,
    {
        Ok(self.raw.float_bytewidth)
    }

    /// Sets the WebP input pixel format.
    pub fn set_webp_input_format(&mut self, _ctx: &Context, format: WebPFilterInputFormat) -> (r:
        TileDBResult<()>)
        ensures
            r is Ok,
            final(self).raw == (FilterData { webp_input_format: format, ..old(self).raw }),
    {
        self.raw.webp_input_format = format;
        Ok(())
    }

    /// The WebP input pixel format.
    pub fn get_webp_input_format(&self, _ctx: &Context) -> (r: TileDBResult<WebPFilterInputFormat>)
        ensures
            r matches Ok(v) && v == self.raw.webp_input_format,
    {
        Ok(self.raw.webp_input_format)
    }

    /// Sets whether WebP compresses losslessly.
    pub fn set_webp_lossless(&mut self, _ctx: &Context, lossless: bool) -> (r: TileDBResult<()>)
        ensures
            r is Ok,
            final(self).raw == (FilterData { webp_lossless: lossless, ..old(self).raw }),
    {
        self.raw.webp_lossless = lossless;
        Ok(())
    }

    /// Whether WebP compresses losslessly.
    pub fn get_webp_lossless(&self, _ctx: &Context) -> (r: TileDBResult<bool>)
        ensures
            r matches Ok(v) && v == self.raw.webp_lossless,
    {
        Ok(self.raw.webp_lossless)
    }

    /// Sets the datatype the compressor reinterprets values as.
    pub fn set_compression_reinterpret_datatype(&mut self, _ctx: &Context, dtype: Datatype) -> (r:
        TileDBResult<()>)
        ensures
            r is Ok,
            final(self).raw == (FilterData {
                compression_reinterpret_datatype: dtype,
                ..old(self).raw
            }),
    {
        self.raw.compression_reinterpret_datatype = dtype;
        Ok(())
    }

    /// The datatype the compressor reinterprets values as.
    pub fn get_compression_reinterpret_datatype(&self, _ctx: &Context) -> (r: TileDBResult<
        Datatype,
    >)
        ensures
            r matches Ok(v) && v == self.raw.compression_reinterpret_datatype,
    {
        Ok(self.raw.compression_reinterpret_datatype)
    }
}

} // verus!
