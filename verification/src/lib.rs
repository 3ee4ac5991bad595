//! A stage-level simulator of how a generative answer engine finds, ranks and
//! cites documents, with each stage's verdict recorded for diagnosis.
pub mod text;
pub mod model;
pub mod parse;
pub mod counts;
pub mod index;
pub mod rank;
pub mod generate;
pub mod diagnose;
pub mod report;
pub mod corpus;
pub mod pipeline;
pub mod laws;
