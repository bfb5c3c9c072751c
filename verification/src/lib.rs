//! A comic library and reader core: page ordering inside archives, library
//! grouping and filtering, reading navigation, spread composition and
//! prefetch scheduling.
use vstd::prelude::*;

pub mod app;
pub mod cache;
pub mod decode;
pub mod library;
pub mod paths;
pub mod text;
pub mod viewer;
pub mod vfs;

verus! {

} // verus!
