//! The generator behind the derive `StructIndex`.
//!
//! From the tokens of one structure declaration it writes three implementations for the
//! structure: `!&value` describes it by its name and the names of its fields, and
//! `value[i]` gives shared or exclusive access to the field at position `i` as
//! `dyn Any`. Fields keep the order of their declaration.
//!
//! [`struct_index`] is the whole path from tokens to text. Its steps are public too:
//! [`parse_declaration`] scans the declaration, [`struct_fields`] and [`tuple_fields`]
//! read a body, [`gen_clean`] takes the bounds out of a generic list, and
//! [`struct_ret`] writes the text.

pub mod declared;
pub mod emitter;
pub mod error;
pub mod fields;
pub mod generics;
pub mod scanner;
pub mod structure;
pub mod text;
pub mod token;

pub use emitter::struct_ret;
pub use error::DeriveError;
pub use fields::{struct_fields, tuple_fields};
pub use generics::gen_clean;
pub use scanner::{parse_declaration, struct_index, ParsedDeclaration};
pub use token::{Delimiter, Group, TokenTree};
