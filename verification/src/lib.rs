//! Reading, writing and converting Glyphs font sources.
//!
//! A Glyphs source keeps a whole family in one property list. This crate
//! reads and writes such a list ([`parse`], [`write`], with [`grammar`] saying
//! what a text means), maps it onto the records of a font and back
//! ([`font`], [`records`], [`codec`]), and converts between those records and
//! a designspace with its font objects ([`to_glyphs`], [`to_designspace`]).
//!
//! Numbers are kept as decimal numbers ([`decimal`]), exactly as they are
//! written. Names of glyphs and sets of code points are those of `norad`
//! ([`names`], [`codepoints`]).
//!
//! What a function does is said over models: a record `x` stands for
//! `x.deep_view()`, a value made of sequences, and the contracts relate the
//! models of what goes in and what comes out. What holds of several
//! functions together is proved where it belongs: that a text that was
//! written is read as the value it was written for ([`roundtrip`]), and that
//! a record that was written is read as the record it was, with what it
//! does not know kept ([`identity`]).

pub mod codec;
pub mod codepoints;
pub mod context;
pub mod decimal;
pub mod designspace;
pub mod digits;
pub mod error;
pub mod font;
pub mod geometry;
pub mod grammar;
pub mod ident;
pub mod identity;
pub mod interop;
pub mod location;
pub mod names;
pub mod node_type;
pub mod ops;
pub mod order;
pub mod parse;
pub mod plist;
pub mod properties;
pub mod records;
pub mod roundtrip;
pub mod schema;
pub mod seqs;
pub mod text;
pub mod to_designspace;
pub mod to_glyphs;
pub mod ufo;
pub mod vecs;
pub mod write;
