//! The grammar of a layout description.
//!
//! ```text
//! bitfield   := NAME '{' [ size_decl ',' ] field_decl (',' field_decl)* [','] '}'
//! size_decl  := '_size' ':' INT
//! field_decl := NAME ':' bitspec ['=' INT]
//! bitspec    := INT | INT '..' INT | INT '..=' INT
//! ```
//!
//! `NAME` is an identifier that can be a name, `INT` an integer literal. The
//! two dots of a range stand together; the `=` of `..=` is a token of its own.
//! A first field called `_size` is the size declaration.
//!
//! Only the shape is checked here. What the numbers mean is left to the
//! validation of the layout. An error names the first token that does not
//! fit; where the input ends too early, that is the place behind the last
//! token.

use crate::error::LayoutError;
use crate::field::FieldDef;
use crate::field::Lit;
use crate::field::UCBits;
use crate::field::UCRange;
use crate::layout::BitFieldDef;
use crate::layout::Description;
use crate::token::Delimiter;
use crate::token::Lexeme;
use vstd::prelude::*;

verus! {

/// Whether the token at `pos` is the punctuation character `c`.
pub open spec fn punct_at(toks: Seq<Lexeme>, pos: int, c: char) -> bool {
    &&& 0 <= pos < toks.len()
    &&& toks[pos] matches Lexeme::Punct(ch, _)
    &&& ch == c
}

/// Whether the token at `pos` is the punctuation character `c`, with the next
/// token right behind it.
pub open spec fn joint_punct_at(toks: Seq<Lexeme>, pos: int, c: char) -> bool {
    &&& 0 <= pos < toks.len()
    &&& toks[pos] matches Lexeme::Punct(ch, joint)
    &&& ch == c
    &&& joint
}

/// Whether the token at `pos` is the brace `brace`.
pub open spec fn token_at(toks: Seq<Lexeme>, pos: int, brace: Lexeme) -> bool {
    0 <= pos < toks.len() && toks[pos] == brace
}

/// The integer literal at `pos`, if there is one.
pub open spec fn int_at(toks: Seq<Lexeme>, pos: int) -> Option<Lit> {
    if 0 <= pos < toks.len() && toks[pos] is Int {
        Some(Lit { value: toks[pos]->Int_0, at: pos as usize })
    } else {
        None
    }
}

/// Whether `toks` has a range operator at `pos`: two dots with nothing in
/// between.
pub open spec fn dots_at(toks: Seq<Lexeme>, pos: int) -> bool {
    joint_punct_at(toks, pos, '.') && punct_at(toks, pos + 1, '.')
}

/// The bits of a field whose first literal is `first`, with the place behind
/// them, where `pos` is the place behind that literal.
pub open spec fn bits_from(toks: Seq<Lexeme>, pos: int, first: Lit) -> Result<
    (UCBits, int),
    LayoutError,
> {
    if dots_at(toks, pos) {
        if punct_at(toks, pos + 2, '=') {
            match int_at(toks, pos + 3) {
                Some(end) => Ok((UCBits::Range(UCRange::Closed(first, end)), pos + 4)),
                None => Err(LayoutError::Grammar { at: (pos + 3) as usize }),
            }
        } else {
            match int_at(toks, pos + 2) {
                Some(end) => Ok((UCBits::Range(UCRange::Open(first, end)), pos + 3)),
                None => Err(LayoutError::Grammar { at: (pos + 2) as usize }),
            }
        }
    } else {
        Ok((UCBits::Single(first), pos))
    }
}

/// The default of a field, with the place behind it, where `pos` is the place
/// behind the field's bits.
pub open spec fn default_from(toks: Seq<Lexeme>, pos: int) -> Result<
    (Option<Lit>, int),
    LayoutError,
> {
    if punct_at(toks, pos, '=') {
        match int_at(toks, pos + 1) {
            Some(value) => Ok((Some(value), pos + 2)),
            None => Err(LayoutError::Grammar { at: (pos + 1) as usize }),
        }
    } else {
        Ok((None, pos))
    }
}

/// The field declared at `pos`, with the place behind it.
pub open spec fn field_at(toks: Seq<Lexeme>, pos: int) -> Result<(FieldDef, int), LayoutError> {
    if !(0 <= pos < toks.len() && toks[pos] is Ident) {
        Err(LayoutError::Grammar { at: pos as usize })
    } else if !punct_at(toks, pos + 1, ':') {
        Err(LayoutError::Grammar { at: (pos + 1) as usize })
    } else {
        match int_at(toks, pos + 2) {
            None => Err(LayoutError::Grammar { at: (pos + 2) as usize }),
            Some(first) => match bits_from(toks, pos + 3, first) {
                Err(e) => Err(e),
                Ok((bits, behind_bits)) => match default_from(toks, behind_bits) {
                    Err(e) => Err(e),
                    Ok((default, behind)) => Ok(
                        (
                            FieldDef {
                                name: toks[pos]->Ident_0,
                                at: pos as usize,
                                bits,
                                default,
                            },
                            behind,
                        ),
                    ),
                },
            },
        }
    }
}

/// The fields declared from `pos` on, behind the fields `before`, with the
/// place of the closing brace. Fields are separated by commas, and one more
/// comma may stand before the brace.
pub open spec fn fields_from(toks: Seq<Lexeme>, pos: int, before: Seq<FieldDef>) -> Result<
    (Seq<FieldDef>, int),
    LayoutError,
>
    decreases toks.len() - pos,
{
    match field_at(toks, pos) {
        Err(e) => Err(e),
        Ok((field, behind)) => {
            if token_at(toks, behind, Lexeme::Close(Delimiter::Brace)) {
                Ok((before.push(field), behind))
            } else if !punct_at(toks, behind, ',') {
                Err(LayoutError::Grammar { at: behind as usize })
            } else if token_at(toks, behind + 1, Lexeme::Close(Delimiter::Brace)) {
                Ok((before.push(field), behind + 1))
            } else {
                fields_from(toks, behind + 1, before.push(field))
            }
        },
    }
}

/// Whether the token at `pos` is the word that opens a size declaration.
pub open spec fn size_word_at(toks: Seq<Lexeme>, pos: int) -> bool {
    &&& 0 <= pos < toks.len()
    &&& toks[pos] matches Lexeme::Ident(word)
    &&& word@ == "_size"@
}

/// The declared size, if the description has one at `pos`, with the place
/// behind the declaration and its comma.
pub open spec fn size_from(toks: Seq<Lexeme>, pos: int) -> Result<(Option<Lit>, int), LayoutError> {
    if !size_word_at(toks, pos) {
        Ok((None, pos))
    } else if !punct_at(toks, pos + 1, ':') {
        Err(LayoutError::Grammar { at: (pos + 1) as usize })
    } else {
        match int_at(toks, pos + 2) {
            None => Err(LayoutError::Grammar { at: (pos + 2) as usize }),
            Some(size) => if punct_at(toks, pos + 3, ',') {
                Ok((Some(size), pos + 4))
            } else {
                Err(LayoutError::Grammar { at: (pos + 3) as usize })
            },
        }
    }
}

/// The layout that `toks` describes: its name, its declared size and its
/// fields; or the place of the first token that does not fit the grammar.
pub open spec fn described(toks: Seq<Lexeme>) -> Result<Description, LayoutError> {
    if !(0 < toks.len() && toks[0] is Ident) {
        Err(LayoutError::Grammar { at: 0 })
    } else if !token_at(toks, 1, Lexeme::Open(Delimiter::Brace)) {
        Err(LayoutError::Grammar { at: 1 })
    } else {
        match size_from(toks, 2) {
            Err(e) => Err(e),
            Ok((size, first)) => match fields_from(toks, first, Seq::empty()) {
                Err(e) => Err(e),
                Ok((fields, close)) => if close + 1 == toks.len() {
                    Ok(Description { name: toks[0]->Ident_0, size, fields })
                } else {
                    Err(LayoutError::Grammar { at: (close + 1) as usize })
                },
            },
        }
    }
}

/// Computes [`punct_at`].
fn is_punct(toks: &Vec<Lexeme>, pos: usize, c: char) -> (found: bool)
    ensures
        found == punct_at(toks@, pos as int, c),
        found ==> pos < toks.len(),
{
    if pos >= toks.len() {
        return false;
    }
    match &toks[pos] {
        Lexeme::Punct(ch, _) => *ch == c,
        _ => false,
    }
}

/// Computes [`joint_punct_at`].
fn is_joint_punct(toks: &Vec<Lexeme>, pos: usize, c: char) -> (found: bool)
    ensures
        found == joint_punct_at(toks@, pos as int, c),
        found ==> pos < toks.len(),
{
    if pos >= toks.len() {
        return false;
    }
    match &toks[pos] {
        Lexeme::Punct(ch, joint) => *ch == c && *joint,
        _ => false,
    }
}

/// Whether the token at `pos` is a brace that opens, or one that closes.
fn is_brace(toks: &Vec<Lexeme>, pos: usize, opening: bool) -> (found: bool)
    ensures
        found == token_at(
            toks@,
            pos as int,
            if opening {
                Lexeme::Open(Delimiter::Brace)
            } else {
                Lexeme::Close(Delimiter::Brace)
            },
        ),
        found ==> pos < toks.len(),
{
    if pos >= toks.len() {
        return false;
    }
    match &toks[pos] {
        Lexeme::Open(Delimiter::Brace) => opening,
        Lexeme::Close(Delimiter::Brace) => !opening,
        _ => false,
    }
}

/// Computes [`int_at`].
fn int_literal(toks: &Vec<Lexeme>, pos: usize) -> (found: Option<Lit>)
    ensures
        found == int_at(toks@, pos as int),
        found is Some ==> pos < toks.len(),
{
    if pos >= toks.len() {
        return None;
    }
    match &toks[pos] {
        Lexeme::Int(value) => Some(Lit { value: *value, at: pos }),
        _ => None,
    }
}

/// Reads the bits of a field behind their first literal.
fn parse_bits(toks: &Vec<Lexeme>, pos: usize, first: Lit) -> (out: Result<
    (UCBits, usize),
    LayoutError,
>)
    requires
        pos <= toks.len(),
    ensures
        match out {
            Ok((bits, behind)) => bits_from(toks@, pos as int, first) == Ok::<
                (UCBits, int),
                LayoutError,
            >((bits, behind as int)) && pos <= behind <= toks.len(),
            Err(e) => bits_from(toks@, pos as int, first) == Err::<(UCBits, int), LayoutError>(e),
        },
{
    if !is_joint_punct(toks, pos, '.') {
        return Ok((UCBits::Single(first), pos));
    }
    if !is_punct(toks, pos + 1, '.') {
        return Ok((UCBits::Single(first), pos));
    }
    if is_punct(toks, pos + 2, '=') {
        match int_literal(toks, pos + 3) {
            Some(end) => Ok((UCBits::Range(UCRange::Closed(first, end)), pos + 4)),
            None => Err(LayoutError::Grammar { at: pos + 3 }),
        }
    } else {
        match int_literal(toks, pos + 2) {
            Some(end) => Ok((UCBits::Range(UCRange::Open(first, end)), pos + 3)),
            None => Err(LayoutError::Grammar { at: pos + 2 }),
        }
    }
}

/// Reads the default of a field behind its bits.
fn parse_default(toks: &Vec<Lexeme>, pos: usize) -> (out: Result<(Option<Lit>, usize), LayoutError>)
    requires
        pos <= toks.len(),
    ensures
        match out {
            Ok((default, behind)) => default_from(toks@, pos as int) == Ok::<
                (Option<Lit>, int),
                LayoutError,
            >((default, behind as int)) && pos <= behind <= toks.len(),
            Err(e) => default_from(toks@, pos as int) == Err::<(Option<Lit>, int), LayoutError>(
                e,
            ),
        },
{
    if !is_punct(toks, pos, '=') {
        return Ok((None, pos));
    }
    match int_literal(toks, pos + 1) {
        Some(value) => Ok((Some(value), pos + 2)),
        None => Err(LayoutError::Grammar { at: pos + 1 }),
    }
}

/// Reads the field declared at `pos`.
pub fn parse_field(toks: &Vec<Lexeme>, pos: usize) -> (out: Result<(FieldDef, usize), LayoutError>)
    requires
        pos <= toks.len(),
    ensures
        match out {
            Ok((field, behind)) => field_at(toks@, pos as int) == Ok::<
                (FieldDef, int),
                LayoutError,
            >((field, behind as int)) && pos + 3 <= behind <= toks.len(),
            Err(e) => field_at(toks@, pos as int) == Err::<(FieldDef, int), LayoutError>(e),
        },
{
    if pos >= toks.len() {
        return Err(LayoutError::Grammar { at: pos });
    }
    let name = match &toks[pos] {
        Lexeme::Ident(name) => name.clone(),
        _ => {
            return Err(LayoutError::Grammar { at: pos });
        },
    };
    if !is_punct(toks, pos + 1, ':') {
        return Err(LayoutError::Grammar { at: pos + 1 });
    }
    let first = match int_literal(toks, pos + 2) {
        Some(first) => first,
        None => {
            return Err(LayoutError::Grammar { at: pos + 2 });
        },
    };
    let (bits, behind_bits) = match parse_bits(toks, pos + 3, first) {
        Ok(found) => found,
        Err(e) => {
            return Err(e);
        },
    };
    match parse_default(toks, behind_bits) {
        Ok((default, behind)) => Ok((FieldDef { name, at: pos, bits, default }, behind)),
        Err(e) => Err(e),
    }
}

/// Reads the fields declared from `pos` on, up to the closing brace.
pub fn parse_fields(toks: &Vec<Lexeme>, pos: usize) -> (out: Result<
    (Vec<FieldDef>, usize),
    LayoutError,
>)
    requires
        pos <= toks.len(),
    ensures
        match out {
            Ok((fields, close)) => fields_from(toks@, pos as int, Seq::empty()) == Ok::<
                (Seq<FieldDef>, int),
                LayoutError,
            >((fields@, close as int)) && close < toks.len(),
            Err(e) => fields_from(toks@, pos as int, Seq::empty()) == Err::<
                (Seq<FieldDef>, int),
                LayoutError,
            >(e),
        },
{
    let mut fields: Vec<FieldDef> = Vec::new();
    let mut at: usize = pos;
    loop
        invariant
            at <= toks.len(),
            fields_from(toks@, pos as int, Seq::empty()) == fields_from(toks@, at as int, fields@),
        decreases toks.len() - at,
    {
        let (field, behind) = match parse_field(toks, at) {
            Ok(found) => found,
            Err(e) => {
                return Err(e);
            },
        };
        fields.push(field);
        if is_brace(toks, behind, false) {
            return Ok((fields, behind));
        }
        if !is_punct(toks, behind, ',') {
            return Err(LayoutError::Grammar { at: behind });
        }
        if is_brace(toks, behind + 1, false) {
            return Ok((fields, behind + 1));
        }
        at = behind + 1;
    }
}

/// Reads the size declaration at `pos`, if there is one.
pub fn parse_size(toks: &Vec<Lexeme>, pos: usize) -> (out: Result<(Option<Lit>, usize), LayoutError>)
    requires
        pos <= toks.len(),
    ensures
        match out {
            Ok((size, behind)) => size_from(toks@, pos as int) == Ok::<
                (Option<Lit>, int),
                LayoutError,
            >((size, behind as int)) && pos <= behind <= toks.len(),
            Err(e) => size_from(toks@, pos as int) == Err::<(Option<Lit>, int), LayoutError>(e),
        },
{
    if pos >= toks.len() {
        return Ok((None, pos));
    }
    let opens = match &toks[pos] {
        Lexeme::Ident(word) => *word == String::from_str("_size"),
        _ => false,
    };
    if !opens {
        return Ok((None, pos));
    }
    if !is_punct(toks, pos + 1, ':') {
        return Err(LayoutError::Grammar { at: pos + 1 });
    }
    let size = match int_literal(toks, pos + 2) {
        Some(size) => size,
        None => {
            return Err(LayoutError::Grammar { at: pos + 2 });
        },
    };
    if !is_punct(toks, pos + 3, ',') {
        return Err(LayoutError::Grammar { at: pos + 3 });
    }
    Ok((Some(size), pos + 4))
}

/// Reads a layout description.
pub fn parse(toks: &Vec<Lexeme>) -> (out: Result<BitFieldDef, LayoutError>)
    ensures
        match out {
            Ok(def) => described(toks@) == Ok::<Description, LayoutError>(def@),
            Err(e) => described(toks@) == Err::<Description, LayoutError>(e),
        },
{
    if toks.len() == 0 {
        return Err(LayoutError::Grammar { at: 0 });
    }
    let name = match &toks[0] {
        Lexeme::Ident(name) => name.clone(),
        _ => {
            return Err(LayoutError::Grammar { at: 0 });
        },
    };
    if !is_brace(toks, 1, true) {
        return Err(LayoutError::Grammar { at: 1 });
    }
    let (size, first) = match parse_size(toks, 2) {
        Ok(found) => found,
        Err(e) => {
            return Err(e);
        },
    };
    let (fields, close) = match parse_fields(toks, first) {
        Ok(found) => found,
        Err(e) => {
            return Err(e);
        },
    };
    if close + 1 != toks.len() {
        return Err(LayoutError::Grammar { at: close + 1 });
    }
    Ok(BitFieldDef { name, size, fields })
}

} // verus!
