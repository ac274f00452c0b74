//! The interface of a single stream with its killswitch: instants are block
//! heights and buyers may act through an operator.

pub mod contract;
pub mod msg;
pub mod query;
