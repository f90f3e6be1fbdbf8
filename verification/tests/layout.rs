use binlayout::Endianness;
use binlayout::Float;
use binlayout::IntWidth;
use binlayout::PrimField;
use binlayout::PrimType;
use binlayout::Section;
use binlayout::Sign;
use binlayout::Struct;
use binlayout::Union;

fn leaf(typ: PrimType) -> Section {
    Section::Prim(PrimField {
        name: String::from("f"),
        typ,
        endianness: Endianness::Little,
    })
}

fn u8_leaf() -> Section {
    leaf(PrimType::Int(IntWidth::Int8, Sign::Unsigned))
}

fn u32_leaf() -> Section {
    leaf(PrimType::Int(IntWidth::Int32, Sign::Unsigned))
}

fn struct_of(fields: Vec<Section>) -> Section {
    Section::Struct(Box::new(Struct {
        name: String::from("s"),
        fields,
        packing: None,
    }))
}

fn union_of(fields: Vec<Section>) -> Section {
    Section::Union(Union {
        name: String::from("u"),
        fields,
    })
}

#[test]
fn test_prim_sizes() {
    assert_eq!(1, IntWidth::Int8.sizeof());
    assert_eq!(2, IntWidth::Int16.sizeof());
    assert_eq!(4, IntWidth::Int32.sizeof());
    assert_eq!(8, IntWidth::Int64.sizeof());
    assert_eq!(4, Float::Float.sizeof());
    assert_eq!(8, Float::Double.sizeof());
    assert_eq!(8, PrimType::Int(IntWidth::Int64, Sign::Signed).sizeof());
    assert_eq!(4, PrimType::Flt(Float::Float).sizeof());
}

#[test]
fn test_bits_sizes() {
    // The byte size of a bit field is the smallest power-of-two number of
    // bytes that can hold its bit count, at least one byte; the bit size is
    // the bit count itself.
    assert_eq!(1, PrimType::Bits(0).sizeof());
    assert_eq!(1, PrimType::Bits(1).sizeof());
    assert_eq!(1, PrimType::Bits(2).sizeof());
    assert_eq!(1, PrimType::Bits(8).sizeof());
    assert_eq!(2, PrimType::Bits(9).sizeof());
    assert_eq!(2, PrimType::Bits(12).sizeof());
    assert_eq!(2, PrimType::Bits(16).sizeof());
    assert_eq!(4, PrimType::Bits(17).sizeof());
    assert_eq!(4, PrimType::Bits(32).sizeof());
    assert_eq!(8, PrimType::Bits(33).sizeof());
    assert_eq!(8, PrimType::Bits(64).sizeof());
    assert_eq!(16, PrimType::Bits(65).sizeof());
    assert_eq!(32, PrimType::Bits(255).sizeof());
    assert_eq!(0, PrimType::Bits(0).size_bits());
    assert_eq!(12, PrimType::Bits(12).size_bits());
    assert_eq!(255, PrimType::Bits(255).size_bits());
}

#[test]
fn test_size_bits_is_eight_times_sizeof() {
    let prims = vec![
        PrimType::Int(IntWidth::Int8, Sign::Unsigned),
        PrimType::Int(IntWidth::Int16, Sign::Signed),
        PrimType::Int(IntWidth::Int32, Sign::Unsigned),
        PrimType::Int(IntWidth::Int64, Sign::Signed),
        PrimType::Flt(Float::Float),
        PrimType::Flt(Float::Double),
    ];
    for p in prims {
        assert_eq!(p.size_bits(), 8 * p.sizeof());
    }
}

#[test]
fn test_array_size_multiplicative() {
    let a3 = Section::Array(Box::new(u32_leaf()), 3);
    assert_eq!(12, a3.sizeof());
    assert_eq!(96, a3.size_bits());
    let a0 = Section::Array(Box::new(u32_leaf()), 0);
    assert_eq!(0, a0.sizeof());
    assert_eq!(0, a0.size_bits());
    let a1 = Section::Array(Box::new(u8_leaf()), 1);
    assert_eq!(1, a1.sizeof());
    assert_eq!(8, a1.size_bits());
}

#[test]
fn test_union_size_is_max() {
    let u = union_of(vec![u8_leaf(), u32_leaf()]);
    assert_eq!(4, u.sizeof());
    assert_eq!(32, u.size_bits());
    let empty = union_of(vec![]);
    assert_eq!(0, empty.sizeof());
    assert_eq!(0, empty.size_bits());
}

#[test]
fn test_struct_single_field() {
    let s = struct_of(vec![u32_leaf()]);
    assert_eq!(4, s.sizeof());
    let s8 = struct_of(vec![leaf(PrimType::Flt(Float::Double))]);
    assert_eq!(8, s8.sizeof());
}

#[test]
fn test_struct_empty() {
    let s = struct_of(vec![]);
    assert_eq!(0, s.sizeof());
    assert_eq!(0, s.size_bits());
}

#[test]
fn test_struct_stride_padding() {
    // First field 4 bytes, then 1 byte: the accumulated 5 bytes are padded up
    // to 8, the next multiple of the first field's size.
    let s = struct_of(vec![u32_leaf(), u8_leaf()]);
    assert_eq!(8, s.sizeof());
}

#[test]
fn test_struct_interior_alignment() {
    // A 1-byte field then a 4-byte field: the running size is aligned to 4
    // before the second field, and the stride is a multiple of 1.
    let s = struct_of(vec![u8_leaf(), u32_leaf()]);
    assert_eq!(8, s.sizeof());
}

#[test]
fn test_struct_size_bits_uses_byte_fold() {
    // A struct's bit size equals its byte size: field-by-field bit packing is
    // not modelled.
    let s = struct_of(vec![u32_leaf(), u8_leaf()]);
    assert_eq!(s.sizeof(), s.size_bits());
}

#[test]
fn test_nested_sections() {
    // struct { u32; u8[3]; union { u8; u32 } }: 4 bytes, then the 3-byte
    // array aligned to its own size 3 (4 -> 6) -> 9, then the 4-byte union
    // aligned to 4 (9 -> 12) -> 16; the stride 16 is already a multiple of 4.
    let inner = union_of(vec![u8_leaf(), u32_leaf()]);
    let arr = Section::Array(Box::new(u8_leaf()), 3);
    let s = struct_of(vec![u32_leaf(), arr, inner]);
    assert_eq!(16, s.sizeof());
}

#[test]
fn test_struct_with_bit_field() {
    // Bits(12) occupies 2 bytes; struct { Bits(12); u8 } accumulates
    // 2 + 1 = 3 bytes, padded to 4, the next multiple of the first field's
    // 2 bytes.
    let s = struct_of(vec![leaf(PrimType::Bits(12)), u8_leaf()]);
    assert_eq!(4, s.sizeof());
}

#[test]
fn test_idempotent() {
    let s = struct_of(vec![
        u32_leaf(),
        Section::Array(Box::new(u8_leaf()), 5),
        union_of(vec![u32_leaf(), leaf(PrimType::Bits(12))]),
    ]);
    assert_eq!(s.sizeof(), s.sizeof());
    assert_eq!(s.size_bits(), s.size_bits());
}
