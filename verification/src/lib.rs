//! Display logic of the local console pages: text for the screen, state
//! views and the decisions behind them.
pub mod audit;
pub mod clock;
pub mod fire;
pub mod interlock;
pub mod palette;
pub mod reasons;
pub mod segment;
pub mod system;
pub mod text;
