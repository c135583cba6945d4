//! A Bloom filter: a fixed array of bits that answers "was this element
//! possibly inserted?" without ever answering "no" for an element that was.

pub mod bit_store;
pub mod bloom_filter;
pub mod hashing;
pub mod positions;
