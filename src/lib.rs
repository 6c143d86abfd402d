//! Filament spool usage: folds a print-job history into a per-spool ledger of
//! consumed mass and renders it as an ordered usage table.

pub mod aggregate;
pub mod ledger;
pub mod mass;
pub mod names;
pub mod pipeline;
pub mod report;
