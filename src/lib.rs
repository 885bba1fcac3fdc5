pub mod types;
pub mod bitutil;
pub mod encodings;
pub mod memory;
pub mod registers;
pub mod ops;
pub mod emulator;
