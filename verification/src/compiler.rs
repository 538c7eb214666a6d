//! From tokens to a validated layout.

use crate::error::LayoutError;
use crate::grammar::described;
use crate::grammar::parse;
use crate::token::lexemes_of;
use crate::token::resolve;
use crate::token::Lexeme;
use crate::token::Token;
use crate::validated::BitFieldSpec;
use vstd::prelude::*;

verus! {

/// Whether `out` is what the compiler makes of the tokens `toks`: the error
/// of the grammar, if they do not describe a layout; else the error of the
/// layout, if it is not valid; else the layout that they describe.
pub open spec fn compiled(toks: Seq<Lexeme>, out: Result<BitFieldSpec, LayoutError>) -> bool {
    match described(toks) {
        Err(e) => out == Err::<BitFieldSpec, LayoutError>(e),
        Ok(description) => match out {
            Ok(layout) => {
                &&& description.accepted()
                &&& layout@.describes(description)
                &&& layout@.wf()
            },
            Err(e) => description.refused_with(e),
        },
    }
}

/// Compiles a layout description whose tokens have been read: applies the
/// grammar, then validates what it describes.
pub fn compile(toks: &Vec<Lexeme>) -> (out: Result<BitFieldSpec, LayoutError>)
    ensures
        compiled(toks@, out),
{
    match parse(toks) {
        Ok(def) => def.validate(),
        Err(e) => Err(e),
    }
}

/// Compiles a layout description: reads its tokens, applies the grammar,
/// then validates what it describes.
pub fn bitfield(tokens: &Vec<Token>) -> (out: Result<BitFieldSpec, LayoutError>)
    ensures
        compiled(lexemes_of(tokens@), out),
{
    let lexemes = resolve(tokens);
    compile(&lexemes)
}

} // verus!
