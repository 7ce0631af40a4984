use vstd::prelude::*;

verus! {

/// The physical datatypes a field can carry.
#[derive(Debug, Clone, Copy, PartialEq, Eq, Structural)]
pub enum Datatype {
    Int8,
    Int16,
    Int32,
    Int64,
    UInt8,
    UInt16,
    UInt32,
    UInt64,
    Float32,
    Float64,
    Char,
    StringAscii,
    StringUtf8,
    StringUtf16,
    StringUtf32,
    StringUcs2,
    StringUcs4,
    Any,
    DateTimeYear,
    DateTimeMonth,
    DateTimeWeek,
    DateTimeDay,
    DateTimeHour,
    DateTimeMinute,
    DateTimeSecond,
    DateTimeMillisecond,
    DateTimeMicrosecond,
    DateTimeNanosecond,
    DateTimePicosecond,
    DateTimeFemtosecond,
    DateTimeAttosecond,
    TimeHour,
    TimeMinute,
    TimeSecond,
    TimeMillisecond,
    TimeMicrosecond,
    TimeNanosecond,
    TimePicosecond,
    TimeFemtosecond,
    TimeAttosecond,
    Blob,
    Boolean,
    GeometryWkb,
    GeometryWkt,
}

impl Datatype {
    /// Size in bytes of one value of this datatype. Strings and blobs count
    /// one code unit; the date and time types are 64-bit counts of their
    /// unit.
    pub open spec fn spec_size(self) -> u64 {
        match self {
            Datatype::Int8 => 1,
            Datatype::Int16 => 2,
            Datatype::Int32 => 4,
            Datatype::Int64 => 8,
            Datatype::UInt8 => 1,
            Datatype::UInt16 => 2,
            Datatype::UInt32 => 4,
            Datatype::UInt64 => 8,
            Datatype::Float32 => 4,
            Datatype::Float64 => 8,
            Datatype::Char => 1,
            Datatype::StringAscii => 1,
            Datatype::StringUtf8 => 1,
            Datatype::StringUtf16 => 2,
            Datatype::StringUtf32 => 4,
            Datatype::StringUcs2 => 2,
            Datatype::StringUcs4 => 4,
            Datatype::Any => 1,
            Datatype::Blob => 1,
            Datatype::Boolean => 1,
            Datatype::GeometryWkb => 1,
            Datatype::GeometryWkt => 1,
            _ => 8,
        }
    }

    /// Size in bytes of one value of this datatype.
    pub fn size(self) -> (r: u64)
        ensures
            r == self.spec_size(),
            1 <= r <= 8,
    {
        match self {
            Datatype::Int8 => 1,
            Datatype::Int16 => 2,
            Datatype::Int32 => 4,
            Datatype::Int64 => 8,
            Datatype::UInt8 => 1,
            Datatype::UInt16 => 2,
            Datatype::UInt32 => 4,
            Datatype::UInt64 => 8,
            Datatype::Float32 => 4,
            Datatype::Float64 => 8,
            Datatype::Char => 1,
            Datatype::StringAscii => 1,
            Datatype::StringUtf8 => 1,
            Datatype::StringUtf16 => 2,
            Datatype::StringUtf32 => 4,
            Datatype::StringUcs2 => 2,
            Datatype::StringUcs4 => 4,
            Datatype::Any => 1,
            Datatype::Blob => 1,
            Datatype::Boolean => 1,
            Datatype::GeometryWkb => 1,
            Datatype::GeometryWkt => 1,
            _ => 8,
        }
    }

    /// Every datatype, in declaration order; callers that need to range
    /// over the datatypes (a generator, an exhaustive check) start here.
    pub fn all() -> (r: Vec<Datatype>)
        ensures
            r@.len() == 44,
            forall|i: int, j: int| 0 <= i < 44 && 0 <= j < 44 && i != j ==> r@[i] != r@[j],
    {
        let mut r: Vec<Datatype> = Vec::new();
        r.push(Datatype::Int8);
        r.push(Datatype::Int16);
        r.push(Datatype::Int32);
        r.push(Datatype::Int64);
        r.push(Datatype::UInt8);
        r.push(Datatype::UInt16);
        r.push(Datatype::UInt32);
        r.push(Datatype::UInt64);
        r.push(Datatype::Float32);
        r.push(Datatype::Float64);
        r.push(Datatype::Char);
        r.push(Datatype::StringAscii);
        r.push(Datatype::StringUtf8);
        r.push(Datatype::StringUtf16);
        r.push(Datatype::StringUtf32);
        r.push(Datatype::StringUcs2);
        r.push(Datatype::StringUcs4);
        r.push(Datatype::Any);
        r.push(Datatype::DateTimeYear);
        r.push(Datatype::DateTimeMonth);
        r.push(Datatype::DateTimeWeek);
        r.push(Datatype::DateTimeDay);
        r.push(Datatype::DateTimeHour);
        r.push(Datatype::DateTimeMinute);
        r.push(Datatype::DateTimeSecond);
        r.push(Datatype::DateTimeMillisecond);
        r.push(Datatype::DateTimeMicrosecond);
        r.push(Datatype::DateTimeNanosecond);
        r.push(Datatype::DateTimePicosecond);
        r.push(Datatype::DateTimeFemtosecond);
        r.push(Datatype::DateTimeAttosecond);
        r.push(Datatype::TimeHour);
        r.push(Datatype::TimeMinute);
        r.push(Datatype::TimeSecond);
        r.push(Datatype::TimeMillisecond);
        r.push(Datatype::TimeMicrosecond);
        r.push(Datatype::TimeNanosecond);
        r.push(Datatype::TimePicosecond);
        r.push(Datatype::TimeFemtosecond);
        r.push(Datatype::TimeAttosecond);
        r.push(Datatype::Blob);
        r.push(Datatype::Boolean);
        r.push(Datatype::GeometryWkb);
        r.push(Datatype::GeometryWkt);
        r
    }
}

} // verus!
