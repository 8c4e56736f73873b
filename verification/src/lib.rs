//! Decision core of an audiobook remuxer: it joins the chapters of a book into
//! one timeline, keeps the chapter table, and says what to do next.

pub mod catalog;
pub mod codec;
pub mod engine;
pub mod model;
pub mod request;
pub mod run;
pub mod script;
pub mod status;
pub mod timeline;
