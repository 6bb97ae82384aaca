//! Look up Chinese words in the dictionary of moedict.tw and show what it
//! has for them.
//!
//! The library holds everything but the talking: which address a lookup goes
//! to and how its answer is read ([`lookup`]), how the answers for a list of
//! words are put together whatever order they arrive in, when a dataset on
//! disk has to be fetched again ([`cache`]), how the two sources of Cantonese
//! readings become one table ([`table`]), how the senses of a word are
//! regrouped by word type ([`grouping`]), how long lines are broken for the
//! terminal ([`reflow`]), what the dictionary view, the translations and the
//! readings look like ([`show`], [`render`]), how terms are picked at random
//! ([`sampler`]) and what a command line or a line of console input asks for
//! ([`command`], [`repl`]). The program around it sends the requests, reads
//! and writes the files, and prints.

pub mod cache;
pub mod command;
pub mod entry;
pub mod error;
pub mod grouping;
pub mod lookup;
pub mod ordered;
pub mod reflow;
pub mod render;
pub mod repl;
pub mod sampler;
pub mod show;
pub mod table;
pub mod text;
