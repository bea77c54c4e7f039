//! Single-threaded memory-management primitives, each with a verified
//! contract: a one-value container whose contents are replaced wholesale and
//! read out by copy (`cell`), a reference-counted owner whose block is freed
//! exactly when the last handle releases it (`rc`), and a cell whose
//! read/write exclusion is checked at access time by an explicit borrow-state
//! machine (`refcell`).

pub mod cell;
pub mod rc;
pub mod refcell;
