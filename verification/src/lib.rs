//! A compiler for bit-field layout descriptions: it reads a compact description
//! of named bits and bit ranges inside a fixed-width word, validates it, and
//! yields accessors that read and write each field without hand-written masks.
//!
//! The way from a description to a word runs through these modules:
//! [`token`] reads the tokens, [`grammar`] applies the grammar,
//! [`layout`] validates what was declared, [`accessor`] binds a writer and a
//! reader to each field, and [`word`] is the word that they work on.
//! [`compiler`] puts the first three together.

pub mod accessor;
pub mod bits;
pub mod compiler;
pub mod error;
pub mod field;
pub mod grammar;
pub mod integer;
pub mod layout;
pub mod mask;
pub mod names;
pub mod order;
pub mod syntax;
pub mod token;
pub mod validated;
pub mod width;
pub mod word;

pub use crate::bits::Bits;
pub use crate::compiler::bitfield;
pub use crate::error::LayoutError;
pub use crate::field::FieldDef;
pub use crate::field::Modifier;
pub use crate::field::UCBits;
pub use crate::field::UCRange;
pub use crate::integer::can_fit;
pub use crate::integer::BitField;
pub use crate::integer::Integer;
pub use crate::validated::BitFieldSpec;
pub use crate::width::Width;
pub use crate::word::Word;
