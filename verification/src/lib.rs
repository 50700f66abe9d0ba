//! Order handling, holdings bookkeeping and market-data reading for a
//! simulated stock trading backend.
pub mod text;
pub mod market;
pub mod trading;
