//! What can be relied on: what the operations do, in terms of what they are given and what they
//! answer.

pub mod admitting;
pub mod aggregates;
pub mod answering;
pub mod asking;
pub mod choosing;
pub mod companies;
pub mod conversing;
pub mod counting;
pub mod documents;
pub mod evaluating;
pub mod facts;
pub mod gathering;
pub mod harness;
pub mod history;
pub mod ingesting;
pub mod insights;
pub mod judging;
pub mod linking;
pub mod loading;
pub mod naming;
pub mod operating;
pub mod planning;
pub mod publishing;
pub mod reading;
pub mod recording;
pub mod recovering;
pub mod refusing;
pub mod reporting;
pub mod routing;
pub mod sameness;
pub mod scoping;
pub mod searching;
