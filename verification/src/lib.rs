//! A fixed-capacity, address-indexed register memory for a fieldbus-style
//! server: a flat 16-bit logical address space reinterpreted at fixed bit
//! widths (1, 8, 16, 32, 64 bits), with O(1) typed access for single values
//! and contiguous runs of values.
//!
//! Two addressing policies are provided, each as its own table type:
//!
//! * [`ValueTable`] gives every width its own full 0..=65535 address range;
//!   the same logical address reinterpreted under different widths reaches
//!   different, non-overlapping storage. Bulk operations silently clamp to
//!   the end of the address domain.
//! * [`registers::Registers`] partitions the single 0..=65535 range into five
//!   disjoint sub-ranges, one per width; an address outside a width's range
//!   reads as zero and writes are silently dropped, and bulk operations are
//!   all-or-nothing.
//!
//! Both tables are backed by one zero-initialized byte arena; every accessor
//! carries a contract that pins down, over the table's abstract view, exactly
//! which registers it reads or writes.
//!
//! Neither table performs any internal synchronization. Writers take
//! `&mut self`, so exclusive access during a write is enforced by the borrow
//! rules; callers who want to share a table across threads must add their own
//! discipline (a lock around the table, or address-range sharding) on top.

mod arena;
mod convert;
pub mod registers;
pub mod value_table;

pub use registers::Registers;
pub use value_table::ValueTable;
