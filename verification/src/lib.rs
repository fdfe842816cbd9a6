//! Verified models of the Unreal Engine runtime structures that the Palia
//! overlay reads: name-pool handles and entries, the global object array,
//! engine arrays and strings, and the decisions that the overlay takes on
//! the values it reads.
pub mod text;
pub mod ue;
pub mod sdk;
pub mod utils;
pub mod overlay;
