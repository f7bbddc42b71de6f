//! Host inspection helpers: discovery and search over a hierarchical
//! configuration store, lookups of installed-application records, line
//! queries on text files, and the state of tabletop games.
pub mod apps;
pub mod entries;
pub mod files;
pub mod folders;
pub mod game;
pub mod paths;
pub mod pattern;
pub mod registry;
pub mod text;
