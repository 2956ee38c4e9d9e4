//! Primitive reading and writing of NBT data: scalars, arrays, strings and headers,
//! in either byte order, over abstract byte sources and sinks.

pub mod error;
pub mod order;
pub mod read;
pub mod scalar;
pub mod stream;
pub mod text;
pub mod wire;
pub mod write;

pub use error::{Error, IoFault};
pub use order::Endianness;
pub use read::{
    emit_next_header, read_bare_byte, read_bare_byte_array, read_bare_double, read_bare_float,
    read_bare_int, read_bare_int_array, read_bare_long, read_bare_long_array, read_bare_short,
    read_bare_string,
};
pub use stream::{ByteSink, ByteSource, MemorySource};
pub use write::{
    close_nbt, write_bare_byte, write_bare_byte_array, write_bare_double, write_bare_float,
    write_bare_int, write_bare_int_array, write_bare_long, write_bare_long_array,
    write_bare_short, write_bare_string,
};
