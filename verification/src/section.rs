//! The layout tree — structs, arrays and unions over primitive leaves — and
//! the engine that computes a tree's byte size and bit size.

use crate::arith::align_to;
use crate::arith::lemma_align_to_ge;
use crate::arith::lemma_align_to_properties;
use crate::arith::spec_align_to;
use crate::prim::PrimField;
use vstd::arithmetic::div_mod::lemma_mod_self_0;
use vstd::arithmetic::div_mod::lemma_small_mod;
use vstd::prelude::*;

verus! {

/// A sequence of named fields laid out one after another with padding for
/// natural alignment. `packing` is an alignment override reserved for a
/// future layout pass; it does not yet affect any size.
pub struct Struct {
    pub name: String,
    pub fields: Vec<Section>,
    pub packing: Option<u64>,
}

/// A set of named fields that all overlay the same storage.
pub struct Union {
    pub name: String,
    pub fields: Vec<Section>,
}

/// A node of a layout tree: a scalar leaf, a struct, an array of one element
/// layout repeated a fixed number of times, or a union.
pub enum Section {
    Prim(PrimField),
    Struct(Box<Struct>),
    Array(Box<Section>, u64),
    Union(Union),
}

/// A named section placed at a byte offset; reserved for a future pass that
/// computes field offsets.
pub struct Field {
    pub name: String,
    pub offset: u64,
    pub typ: Section,
}

/// Accumulated byte size after laying out the fields from index `i` onward,
/// starting from an accumulated size of `size`: each field is aligned to its
/// own byte size, then added.
pub open spec fn struct_fold_bytes(fields: Seq<Section>, i: int, size: nat) -> nat
    decreases fields, fields.len() - i,
{
    if i < 0 || i >= fields.len() {
        size
    } else {
        struct_fold_bytes(
            fields,
            i + 1,
            spec_align_to(size, fields[i].spec_sizeof()) + fields[i].spec_sizeof(),
        )
    }
}

/// Byte size of a struct with the given fields: 0 when there are none;
/// otherwise the fields folded in declaration order, with the total aligned
/// to the first field's size so that the stride stays aligned when instances
/// repeat.
pub open spec fn struct_sizeof_bytes(fields: Seq<Section>) -> nat
    decreases fields, fields.len() + 1,
{
    if fields.len() == 0 {
        0
    } else {
        spec_align_to(struct_fold_bytes(fields, 0, 0), fields[0].spec_sizeof())
    }
}

/// The largest byte size among the fields from index `i` onward; 0 past the
/// end.
pub open spec fn union_max_bytes(fields: Seq<Section>, i: int) -> nat
    decreases fields, fields.len() - i,
{
    if i < 0 || i >= fields.len() {
        0
    } else if fields[i].spec_sizeof() >= union_max_bytes(fields, i + 1) {
        fields[i].spec_sizeof()
    } else {
        union_max_bytes(fields, i + 1)
    }
}

/// The largest bit size among the fields from index `i` onward; 0 past the
/// end.
pub open spec fn union_max_bits(fields: Seq<Section>, i: int) -> nat
    decreases fields, fields.len() - i,
{
    if i < 0 || i >= fields.len() {
        0
    } else if fields[i].spec_size_bits() >= union_max_bits(fields, i + 1) {
        fields[i].spec_size_bits()
    } else {
        union_max_bits(fields, i + 1)
    }
}

impl Section {
    /// Byte size of the layout tree.
    pub open spec fn spec_sizeof(self) -> nat
        decreases self, 1nat,
    {
        match self {
            Section::Prim(prim) => prim.typ.spec_sizeof(),
            Section::Struct(structure) => struct_sizeof_bytes(structure.fields@),
            Section::Array(section, num_elems) => (*section).spec_sizeof() * (num_elems as nat),
            Section::Union(u) => union_max_bytes(u.fields@, 0),
        }
    }

    /// Bit size of the layout tree. A struct's bit size equals its byte
    /// size, computed field by field over byte sizes: sub-byte packing of
    /// consecutive bit fields is not modelled.
    pub open spec fn spec_size_bits(self) -> nat
        decreases self, 1nat,
    {
        match self {
            Section::Prim(prim) => prim.typ.spec_size_bits(),
            Section::Struct(structure) => struct_sizeof_bytes(structure.fields@),
            Section::Array(section, num_elems) => (*section).spec_size_bits() * (num_elems as nat),
            Section::Union(u) => union_max_bits(u.fields@, 0),
        }
    }

    /// Every byte-size computation that `sizeof` performs on this tree fits
    /// in a `u64`: the machine-width precondition of `sizeof`.
    pub open spec fn sizeof_fits(self) -> bool
        decreases self,
    {
        self.spec_sizeof() <= u64::MAX && match self {
            Section::Prim(_) => true,
            Section::Struct(structure) => forall|i: int|
                0 <= i < structure.fields@.len()
                    ==> (#[trigger] structure.fields@[i]).sizeof_fits(),
            Section::Array(section, num_elems) => num_elems > 0 ==> (*section).sizeof_fits(),
            Section::Union(u) => forall|i: int|
                0 <= i < u.fields@.len() ==> (#[trigger] u.fields@[i]).sizeof_fits(),
        }
    }

    /// Every size computation that `size_bits` performs on this tree fits in
    /// a `u64`. A struct's bit size is computed over its fields' byte sizes,
    /// so the fields of a struct must satisfy `sizeof_fits`.
    pub open spec fn size_bits_fits(self) -> bool
        decreases self,
    {
        self.spec_size_bits() <= u64::MAX && match self {
            Section::Prim(_) => true,
            Section::Struct(structure) => forall|i: int|
                0 <= i < structure.fields@.len()
                    ==> (#[trigger] structure.fields@[i]).sizeof_fits(),
            Section::Array(section, num_elems) => num_elems > 0 ==> (*section).size_bits_fits(),
            Section::Union(u) => forall|i: int|
                0 <= i < u.fields@.len() ==> (#[trigger] u.fields@[i]).size_bits_fits(),
        }
    }

    /// Byte size of the layout: leaves by their scalar size, arrays densely
    /// packed, structs with natural alignment per field and a stride aligned
    /// to the first field, unions as the largest member.
    #[verifier::loop_isolation(false)]
    pub fn sizeof(&self) -> (size: u64)
        requires
            self.sizeof_fits(),
        ensures
            size == self.spec_sizeof(),
        decreases *self, 1nat,
    {
        match self {
            Section::Prim(prim) => prim.typ.sizeof(),
            Section::Struct(structure) => struct_layout_size(structure),
            Section::Array(section, num_elems) => {
                if *num_elems == 0 {
                    proof {
                        assert((*section).spec_sizeof() * (*num_elems as nat) == 0);
                    }
                    0
                } else {
                    section.sizeof() * *num_elems
                }
            },
            Section::Union(u) => {
                let ghost fields = u.fields@;
                let mut largest: u64 = 0;
                let mut i: usize = 0;
                while i < u.fields.len()
                    invariant
                        i <= fields.len(),
                        fields == u.fields@,
                        forall|j: int|
                            0 <= j < fields.len() ==> (#[trigger] fields[j]).sizeof_fits(),
                        union_max_bytes(fields, 0) == if largest as nat >= union_max_bytes(
                            fields,
                            i as int,
                        ) {
                            largest as nat
                        } else {
                            union_max_bytes(fields, i as int)
                        },
                    decreases fields.len() - i,
                {
                    let field_size = u.fields[i].sizeof();
                    if field_size > largest {
                        largest = field_size;
                    }
                    i = i + 1;
                }
                largest
            },
        }
    }

    /// Bit size of the layout: leaves by their scalar bit size, arrays
    /// densely packed, structs by the same byte-level fold as `sizeof`,
    /// unions as the largest member.
    #[verifier::loop_isolation(false)]
    pub fn size_bits(&self) -> (bits: u64)
        requires
            self.size_bits_fits(),
        ensures
            bits == self.spec_size_bits(),
        decreases *self, 1nat,
    {
        match self {
            Section::Prim(prim) => prim.typ.size_bits(),
            Section::Struct(structure) => struct_layout_size(structure),
            Section::Array(section, num_elems) => {
                if *num_elems == 0 {
                    proof {
                        assert((*section).spec_size_bits() * (*num_elems as nat) == 0);
                    }
                    0
                } else {
                    section.size_bits() * *num_elems
                }
            },
            Section::Union(u) => {
                let ghost fields = u.fields@;
                let mut largest: u64 = 0;
                let mut i: usize = 0;
                while i < u.fields.len()
                    invariant
                        i <= fields.len(),
                        fields == u.fields@,
                        forall|j: int|
                            0 <= j < fields.len() ==> (#[trigger] fields[j]).size_bits_fits(),
                        union_max_bits(fields, 0) == if largest as nat >= union_max_bits(
                            fields,
                            i as int,
                        ) {
                            largest as nat
                        } else {
                            union_max_bits(fields, i as int)
                        },
                    decreases fields.len() - i,
                {
                    let field_size = u.fields[i].size_bits();
                    if field_size > largest {
                        largest = field_size;
                    }
                    i = i + 1;
                }
                largest
            },
        }
    }
}

/// Laying out further fields never shrinks the accumulated size.
proof fn lemma_struct_fold_bytes_ge(fields: Seq<Section>, i: int, size: nat)
    ensures
        struct_fold_bytes(fields, i, size) >= size,
    decreases fields.len() - i,
{
    if 0 <= i < fields.len() {
        lemma_align_to_ge(size, fields[i].spec_sizeof());
        lemma_struct_fold_bytes_ge(
            fields,
            i + 1,
            spec_align_to(size, fields[i].spec_sizeof()) + fields[i].spec_sizeof(),
        );
    }
}

/// Sequential struct layout, shared by `sizeof` and `size_bits`: fold the
/// fields in declaration order, aligning the running size to each field's
/// byte size before adding it, then align the total to the first field's
/// size.
fn struct_layout_size(structure: &Struct) -> (size: u64)
    requires
        forall|i: int|
            0 <= i < structure.fields@.len() ==> (#[trigger] structure.fields@[i]).sizeof_fits(),
        struct_sizeof_bytes(structure.fields@) <= u64::MAX,
    ensures
        size == struct_sizeof_bytes(structure.fields@),
    decreases structure.fields@, structure.fields@.len() + 2,
{
    let ghost fields = structure.fields@;
    let mut size: u64 = 0;
    if structure.fields.len() > 0 {
        let first_size = structure.fields[0].sizeof();
        proof {
            lemma_align_to_ge(struct_fold_bytes(fields, 0, 0), fields[0].spec_sizeof());
        }
        let mut i: usize = 0;
        while i < structure.fields.len()
            invariant
                i <= fields.len(),
                0 < fields.len(),
                fields == structure.fields@,
                forall|j: int| 0 <= j < fields.len() ==> (#[trigger] fields[j]).sizeof_fits(),
                struct_sizeof_bytes(fields) <= u64::MAX,
                first_size == fields[0].spec_sizeof(),
                struct_fold_bytes(fields, i as int, size as nat) == struct_fold_bytes(
                    fields,
                    0,
                    0,
                ),
                size <= struct_fold_bytes(fields, 0, 0),
            decreases fields.len() - i,
        {
            let field_size = structure.fields[i].sizeof();
            proof {
                lemma_align_to_ge(size as nat, field_size as nat);
                lemma_struct_fold_bytes_ge(
                    fields,
                    i + 1,
                    spec_align_to(size as nat, fields[i as int].spec_sizeof())
                        + fields[i as int].spec_sizeof(),
                );
                lemma_align_to_ge(struct_fold_bytes(fields, 0, 0), fields[0].spec_sizeof());
            }
            size = align_to(size, field_size) + field_size;
            i = i + 1;
        }
        size = align_to(size, first_size);
    }
    size
}

/// An array's byte and bit sizes are the element's sizes times the element
/// count; in particular an array of count 0 has size 0.
pub proof fn lemma_array_size_multiplicative(elem: Box<Section>, count: u64)
    ensures
        Section::Array(elem, count).spec_sizeof() == (*elem).spec_sizeof() * count,
        Section::Array(elem, count).spec_size_bits() == (*elem).spec_size_bits() * count,
{
}

proof fn lemma_union_max_bytes_props(fields: Seq<Section>, i: int)
    requires
        0 <= i <= fields.len(),
    ensures
        forall|j: int|
            i <= j < fields.len() ==> (#[trigger] fields[j]).spec_sizeof() <= union_max_bytes(
                fields,
                i,
            ),
        i < fields.len() ==> exists|j: int|
            i <= j < fields.len() && (#[trigger] fields[j]).spec_sizeof() == union_max_bytes(
                fields,
                i,
            ),
    decreases fields.len() - i,
{
    if i < fields.len() {
        lemma_union_max_bytes_props(fields, i + 1);
        if fields[i].spec_sizeof() >= union_max_bytes(fields, i + 1) {
            assert(fields[i].spec_sizeof() == union_max_bytes(fields, i));
        } else {
            let j0 = choose|j: int|
                i + 1 <= j < fields.len() && (#[trigger] fields[j]).spec_sizeof()
                    == union_max_bytes(fields, i + 1);
            assert(fields[j0].spec_sizeof() == union_max_bytes(fields, i));
        }
    }
}

proof fn lemma_union_max_bits_props(fields: Seq<Section>, i: int)
    requires
        0 <= i <= fields.len(),
    ensures
        forall|j: int|
            i <= j < fields.len() ==> (#[trigger] fields[j]).spec_size_bits() <= union_max_bits(
                fields,
                i,
            ),
        i < fields.len() ==> exists|j: int|
            i <= j < fields.len() && (#[trigger] fields[j]).spec_size_bits() == union_max_bits(
                fields,
                i,
            ),
    decreases fields.len() - i,
{
    if i < fields.len() {
        lemma_union_max_bits_props(fields, i + 1);
        if fields[i].spec_size_bits() >= union_max_bits(fields, i + 1) {
            assert(fields[i].spec_size_bits() == union_max_bits(fields, i));
        } else {
            let j0 = choose|j: int|
                i + 1 <= j < fields.len() && (#[trigger] fields[j]).spec_size_bits()
                    == union_max_bits(fields, i + 1);
            assert(fields[j0].spec_size_bits() == union_max_bits(fields, i));
        }
    }
}

/// A union's size — in bytes and in bits — is the maximum of its members'
/// sizes: it bounds every member, some member attains it, and an empty union
/// has size 0.
pub proof fn lemma_union_size_is_max(u: Union)
    ensures
        forall|i: int|
            0 <= i < u.fields@.len() ==> (#[trigger] u.fields@[i]).spec_sizeof() <= Section::Union(
                u,
            ).spec_sizeof(),
        forall|i: int|
            0 <= i < u.fields@.len() ==> (#[trigger] u.fields@[i]).spec_size_bits()
                <= Section::Union(u).spec_size_bits(),
        u.fields@.len() == 0 ==> Section::Union(u).spec_sizeof() == 0 && Section::Union(
            u,
        ).spec_size_bits() == 0,
        u.fields@.len() > 0 ==> exists|i: int|
            0 <= i < u.fields@.len() && (#[trigger] u.fields@[i]).spec_sizeof() == Section::Union(
                u,
            ).spec_sizeof(),
        u.fields@.len() > 0 ==> exists|i: int|
            0 <= i < u.fields@.len() && (#[trigger] u.fields@[i]).spec_size_bits()
                == Section::Union(u).spec_size_bits(),
{
    lemma_union_max_bytes_props(u.fields@, 0);
    lemma_union_max_bits_props(u.fields@, 0);
    if u.fields@.len() == 0 {
        assert(union_max_bytes(u.fields@, 0) == 0);
        assert(union_max_bits(u.fields@, 0) == 0);
    }
    assert(Section::Union(u).spec_sizeof() == union_max_bytes(u.fields@, 0));
    assert(Section::Union(u).spec_size_bits() == union_max_bits(u.fields@, 0));
}

/// A struct with exactly one field has that field's byte size: the layout
/// adds no padding around a single field.
pub proof fn lemma_struct_single_field(structure: Box<Struct>)
    requires
        structure.fields@.len() == 1,
    ensures
        Section::Struct(structure).spec_sizeof() == structure.fields@[0].spec_sizeof(),
{
    let fields = structure.fields@;
    let s0 = fields[0].spec_sizeof();
    if s0 == 0 {
        assert(spec_align_to(0, 0) == 0);
        assert(struct_fold_bytes(fields, 1, 0) == 0);
        assert(struct_fold_bytes(fields, 0, 0) == 0);
    } else {
        lemma_small_mod(0, s0);
        lemma_mod_self_0(s0 as int);
        assert(spec_align_to(0, s0) == 0);
        assert(struct_fold_bytes(fields, 1, s0) == s0);
        assert(struct_fold_bytes(fields, 0, 0) == s0);
        assert(spec_align_to(s0, s0) == s0);
    }
    assert(struct_sizeof_bytes(fields) == spec_align_to(
        struct_fold_bytes(fields, 0, 0),
        fields[0].spec_sizeof(),
    ));
    assert(Section::Struct(structure).spec_sizeof() == struct_sizeof_bytes(fields));
}

/// A non-empty struct's total size is a multiple of its first field's size,
/// so the stride stays aligned when instances are repeated in an array.
pub proof fn lemma_struct_stride_aligned(structure: Box<Struct>)
    requires
        structure.fields@.len() > 0,
        structure.fields@[0].spec_sizeof() > 0,
    ensures
        Section::Struct(structure).spec_sizeof() % structure.fields@[0].spec_sizeof() == 0,
{
    lemma_align_to_properties(
        struct_fold_bytes(structure.fields@, 0, 0),
        structure.fields@[0].spec_sizeof(),
    );
    assert(struct_sizeof_bytes(structure.fields@) == spec_align_to(
        struct_fold_bytes(structure.fields@, 0, 0),
        structure.fields@[0].spec_sizeof(),
    ));
    assert(Section::Struct(structure).spec_sizeof() == struct_sizeof_bytes(structure.fields@));
}

} // verus!
