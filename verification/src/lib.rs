//! Scene documents, mailbox requests, look queries and the live-feed panel of a thin
//! authoring viewport.

pub mod numeric;
pub mod formula;
pub mod worth;
pub mod exact;
pub mod motion;
pub mod text;
pub mod layout;
pub mod patterns;
pub mod lists;
pub mod table;
pub mod document;
pub mod light;
pub mod change;
pub mod apply;
pub mod beauty;
pub mod comparing;
pub mod pictures;
pub mod laws;
pub mod validate;
pub mod chain;
pub mod grouping;
pub mod placing;
pub mod effects;
pub mod store;
pub mod outcomes;
pub mod geom;
pub mod shapes;
pub mod json;
pub mod rtx;
pub mod play;
pub mod camera;
pub mod viewing;
pub mod capabilities;
pub mod catalog;
pub mod ranking;
pub mod query;
pub mod asking;
pub mod value;
pub mod base64;
pub mod export;
pub mod buffers;
pub mod graphs;
pub mod import;
pub mod files;
pub mod roundtrip;
pub mod cycles_stream;
pub mod cycles_xml;
pub mod scenery;
pub mod mailbox;
pub mod serving;
pub mod feed;
pub mod telling;
pub mod wire;
pub mod paint;
pub mod lettering;
pub mod wrap;
pub mod hud;
pub mod panel;
pub mod pointing;
pub mod cards;
pub mod args;
pub mod cli;
pub mod words;
pub mod mcp;
pub mod viewport;
pub mod watching;
