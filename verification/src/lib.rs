//! An envelope-budgeting ledger: accounts hold milliunit balances,
//! transactions move money, and categories track budgeted-vs-spent
//! amounts across a gapless sequence of months.

pub mod aom;
pub mod budget;
pub mod dates;
pub mod engine;
pub mod entities;
pub mod goals;
pub mod money;
pub mod rollup;
