//! The store modules: cached feed data and the terminal view state.

pub mod data;
pub mod view;
