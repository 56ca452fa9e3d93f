//! Market-data core of an order-flow terminal: trade-side classification of
//! tick streams, symbol metadata, subscription bookkeeping, DOM/quote
//! orientation for inverted currency futures and display formatting.
pub mod text;
pub mod side;
pub mod tick;
pub mod symbols;
pub mod feed;
pub mod subscriptions;
pub mod sorting;
pub mod format;
pub mod transformer;
pub mod tape;
pub mod viewport;
pub mod process_table;
pub mod parse;
pub mod state;
pub mod chart;
pub mod simulator;
pub mod ladder;
pub mod row_style;
