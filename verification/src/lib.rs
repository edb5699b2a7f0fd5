//! An incremental static-site compiler.
//!
//! The library turns structured text documents into output markup and
//! tracks, in a persistent cache, what produced what, so that
//! unchanged documents can be skipped on repeat builds.
//!
//! A document starts with metadata lines and a title ([`metadata`],
//! [`post`]); its body is compiled by a render session ([`renderer`])
//! that walks the token stream of the markup dialect ([`markdown`])
//! and wraps each element with its output markup ([`templates`]).
//! The session's side results feed the build cache ([`cache`]), whose
//! staleness rule ([`fs`]) decides what is rebuilt, and the whole
//! entry set feeds the aggregate pages ([`pages`]). The rules the
//! asset pipeline applies to referenced files live in [`transformer`],
//! and the library's general guarantees are stated and proved in
//! [`laws`].

pub mod cache;
pub mod ext;
pub mod fs;
pub mod laws;
pub mod markdown;
pub mod metadata;
pub mod mini;
pub mod parser;
pub mod pages;
pub mod post;
pub mod renderer;
pub mod templates;
pub mod text;
pub mod transformer;

use vstd::prelude::*;

verus! {

} // verus!
