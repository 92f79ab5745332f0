pub mod app;
pub mod editor;
pub mod git;
pub mod keys;
pub mod laws;
pub mod ops;
pub mod ops_laws;
pub mod remote;
pub mod rows;
pub mod text;
pub mod transient;
pub mod ui;
