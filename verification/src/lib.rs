//! A verified in-memory knowledge store.

pub mod accessors;
pub mod analysis;
pub mod artifacts;
pub mod audit;
pub mod company;
pub mod components;
pub mod cursor;
pub mod data;
pub mod documents;
pub mod error;
pub mod evaluation;
pub mod execution;
pub mod facts;
pub mod float;
pub mod grouping;
pub mod guards;
pub mod harness;
pub mod history;
pub mod history_search;
pub mod hits;
pub mod hydration;
pub mod idle;
pub mod ingest;
pub mod insights;
pub mod json;
pub mod laws;
pub mod links;
pub mod listing;
pub mod loading;
pub mod masking;
pub mod materialize;
pub mod merge;
pub mod model;
pub mod naming;
pub mod nodes;
pub mod operations;
pub mod order;
pub mod plan;
pub mod publish;
pub mod query;
pub mod reading;
pub mod reconcile;
pub mod record;
pub mod recovery;
pub mod reports;
pub mod resolver;
pub mod routing;
pub mod runs;
pub mod search;
pub mod sessions;
pub mod similarity;
pub mod snapshots;
pub mod source_delete;
pub mod stage;
pub mod stages;
pub mod staging;
pub mod state;
pub mod table;
pub mod tasks;
pub mod text;
pub mod usage;
pub mod verdicts;
