//! The view-model of a project console: the caches the screen reads, the
//! rules that turn wire reads into rows, and the decisions behind every
//! edit, completion and fetch.
pub mod text;
pub mod seqs;
pub mod model;
pub mod wire;
pub mod reads;
pub mod feed;
pub mod cache;
pub mod multipart;
pub mod edits;
pub mod compose;
pub mod sync;
pub mod labels;
pub mod panels;
pub mod graph;
pub mod forms;
pub mod knowledge;
pub mod screens;
pub mod lanes;
pub mod rows;
pub mod writes;
