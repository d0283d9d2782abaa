//! Navigation and population core of a terminal file manager: a scrollable
//! viewport over any list, file listings with search, filtering and sorting,
//! and the bookkeeping of supervised external processes.

pub mod builder;
pub mod files;
pub mod listview;
pub mod miller_columns;
pub mod proclist;
pub mod text;
pub mod viewport;
