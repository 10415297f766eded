//! Stylesheet source to CSS, by `sass_rs`.

use vstd::prelude::*;

verus! {

/// Whether a stylesheet source can be handed to the compiler: it holds no
/// NUL character.
pub open spec fn compilable(source: Seq<char>) -> bool {
    forall|i: int| 0 <= i < source.len() ==> source[i] != '\0'
}

/// Compiles SCSS to CSS.
///
/// Calls `sass_rs::compile_string` with the default options. The source is
/// passed on as a C string, so it must hold no NUL: the call panics on one.
/// Nothing is promised of the outcome: an `@import` in the source makes it
/// depend on the files at hand.
#[verifier::external_body]
pub(crate) fn compile_scss(source: &str) -> (css: Result<String, String>)
    requires
        compilable(source@),
{
    sass_rs::compile_string(source, sass_rs::Options::default())
}

} // verus!
