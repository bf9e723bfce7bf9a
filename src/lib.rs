//! Small Unix text utilities: a byte dump formatter, line numbering for
//! concatenation, and line selection for pattern search.

pub mod text;
pub mod digits;
pub mod hexdump;
pub mod dump_laws;
pub mod cat;
pub mod toolslib;
pub mod grep;
