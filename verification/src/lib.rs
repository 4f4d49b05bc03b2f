//! Rows returned by PostgreSQL queries, the column lookup behind them, and
//! the naming decisions of the `FromRow` derive, with their contracts proved.
pub mod borrowed;
pub mod case;
pub mod derive;
pub mod error;
pub mod index;
pub mod overrides;
pub mod row;
mod sealed;
pub mod text;
pub mod wire;
