//! A model of binary data layouts: primitive scalars, fixed-size arrays,
//! structs and unions, together with verified computation of each layout's
//! byte size and bit size under natural-alignment rules (every type's
//! alignment requirement equals its own size).

pub mod arith;
pub mod prim;
pub mod section;

pub use arith::align_to;
pub use arith::power_of_2_greater_than;
pub use prim::Endianness;
pub use prim::Float;
pub use prim::IntWidth;
pub use prim::PrimField;
pub use prim::PrimType;
pub use prim::Sign;
pub use section::Field;
pub use section::Section;
pub use section::Struct;
pub use section::Union;
