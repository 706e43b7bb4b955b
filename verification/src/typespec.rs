//! The type algebra: the `Type`/`Number` value model and the modifier rules
//! that rewrite one `Type` into another.
//!
//! A `Type` is a tree with exclusive ownership of its children; a
//! back-reference to an earlier slot always clones, never aliases. Modifier
//! application is total over the modifiers that are legal for a value's tag
//! and fails with `Error::UnsupportedModifier` otherwise; no modifier is
//! legal for `Void`.

use vstd::prelude::*;

verus! {

/// The kind of a scalar number: signed integer, unsigned integer, or float.
#[derive(Clone, Copy, Debug, PartialEq, Eq, Structural)]
pub enum NumKind {
    Signed,
    Unsigned,
    Float,
}

/// A scalar number type. `llvm_bitwidth`, when present, is a strictly
/// narrower width used only for the externally visible name.
#[derive(Clone, Copy, Debug)]
pub struct Number {
    pub kind: NumKind,
    pub bitwidth: u32,
    pub llvm_bitwidth: Option<u32>,
}

/// A concrete type: the central value of the algebra.
#[derive(Debug)]
pub enum Type {
    Void,
    Num(Number),
    Pointer { elem: Box<Type>, llvm_elem: Option<Box<Type>>, is_const: bool },
    Vector { elem: Box<Type>, length: u32, bitcast: Option<Box<Type>> },
    Aggregate { flatten: bool, elems: TypeList },
}

/// The ordered children of an aggregate, held as an owned chain so that the
/// whole `Type` tree is one structural value.
#[derive(Debug)]
pub enum TypeList {
    Empty,
    Item { first: Box<Type>, rest: Box<TypeList> },
}

/// One modifier drawn from a spec token, in the order the token gave it:
/// the positional index selector first, then each single-character modifier,
/// then the forced total width.
#[derive(Clone, Copy, Debug, PartialEq, Eq, Structural)]
pub enum Modifier {
    /// `v`: wrap a scalar into a vector at the platform width.
    Vectorize,
    /// `S`: unwrap a vector to its element type.
    Scalarize,
    /// `h`: halve a vector's lane count.
    HalveLanes,
    /// `d`: double a vector's lane count.
    DoubleLanes,
    /// `n`: halve a number's bit width.
    Narrow,
    /// `w`: double a number's bit width.
    Widen,
    /// `u`: change a number's kind to unsigned.
    ToUnsigned,
    /// `s`: change a number's kind to signed.
    ToSigned,
    /// `f`: change a number's kind to float.
    ToFloat,
    /// `D`: drop one pointer level.
    Deref,
    /// `M`: force a pointer mutable.
    ForceMut,
    /// `C`: force a pointer const.
    ForceConst,
    /// `.N`: select the N-th element of an aggregate.
    Index(usize),
    /// `xN`: set a vector's lane count to N / element bit width.
    ForceWidth(u32),
}

/// Failures of parsing, modifier application, and enumeration. Configuration
/// is trusted build-time data, so every failure is fail-fast: the first error
/// aborts the whole expansion.
#[derive(Debug)]
pub enum Error {
    /// The raw token does not match the spec token grammar.
    Parse { token: String },
    /// A back-reference index is not within the already-resolved slots.
    UnknownReference { index: usize, known: usize },
    /// A modifier is illegal for the tag of the value it was applied to.
    UnsupportedModifier,
    /// A width is zero or leaves the machine range when doubled.
    InvalidWidth { width: u32 },
    /// A bitcast sub-spec enumerated to zero or several types.
    AmbiguousBitcast { count: usize },
    /// A pointee sub-spec enumerated to zero or several types.
    AmbiguousPointee { count: usize },
}

/// The number of children of an aggregate.
pub open spec fn tl_len(l: TypeList) -> nat
    decreases l,
{
    match l {
        TypeList::Empty => 0,
        TypeList::Item { first, rest } => 1 + tl_len(*rest),
    }
}

/// The i-th child of an aggregate (`Void` past the end).
pub open spec fn tl_nth(l: TypeList, i: nat) -> Type
    decreases l,
{
    match l {
        TypeList::Empty => Type::Void,
        TypeList::Item { first, rest } => if i == 0 {
            *first
        } else {
            tl_nth(*rest, (i - 1) as nat)
        },
    }
}

/// The storage bit width a type reports: that of a scalar number, zero for
/// every other tag.
pub open spec fn spec_bitwidth(t: Type) -> u32 {
    match t {
        Type::Num(n) => n.bitwidth,
        _ => 0u32,
    }
}

/// What `modify` returns: the modifier table of the type algebra.
///
/// No modifier is legal for `Void`. On a number, a kind change clears the
/// narrow width; `w`/`n` double/halve the width; `v` wraps into a vector of
/// `width / bitwidth` lanes. On a pointer, `D`/`M`/`C` act on the pointer
/// itself and every other modifier recurses into the pointee. On a vector,
/// `S`/`h`/`d`/`xN` act on the vector (clearing any bitcast) and every other
/// modifier recurses into the element, also clearing the bitcast. On an
/// aggregate only `.N` is legal and selects the N-th child.
pub open spec fn spec_modify(t: Type, m: Modifier, width: u32) -> Result<Type, Error>
    decreases t,
{
    match t {
        Type::Void => Err(Error::UnsupportedModifier),
        Type::Num(n) => match m {
            Modifier::ToUnsigned => Ok(
                Type::Num(
                    Number { kind: NumKind::Unsigned, bitwidth: n.bitwidth, llvm_bitwidth: None },
                ),
            ),
            Modifier::ToSigned => Ok(
                Type::Num(
                    Number { kind: NumKind::Signed, bitwidth: n.bitwidth, llvm_bitwidth: None },
                ),
            ),
            Modifier::ToFloat => Ok(
                Type::Num(
                    Number { kind: NumKind::Float, bitwidth: n.bitwidth, llvm_bitwidth: None },
                ),
            ),
            Modifier::Widen => if n.bitwidth <= u32::MAX / 2 {
                Ok(
                    Type::Num(
                        Number {
                            kind: n.kind,
                            bitwidth: (n.bitwidth * 2) as u32,
                            llvm_bitwidth: None,
                        },
                    ),
                )
            } else {
                Err(Error::InvalidWidth { width: n.bitwidth })
            },
            Modifier::Narrow => Ok(
                Type::Num(
                    Number {
                        kind: n.kind,
                        bitwidth: (n.bitwidth / 2) as u32,
                        llvm_bitwidth: None,
                    },
                ),
            ),
            Modifier::Vectorize => if n.bitwidth == 0 {
                Err(Error::InvalidWidth { width: 0u32 })
            } else {
                Ok(
                    Type::Vector {
                        elem: Box::new(Type::Num(n)),
                        length: (width / n.bitwidth) as u32,
                        bitcast: None,
                    },
                )
            },
            _ => Err(Error::UnsupportedModifier),
        },
        Type::Pointer { elem, llvm_elem, is_const } => match m {
            Modifier::Deref => Ok(*elem),
            Modifier::ForceMut => Ok(Type::Pointer { elem, llvm_elem, is_const: false }),
            Modifier::ForceConst => Ok(Type::Pointer { elem, llvm_elem, is_const: true }),
            _ => match spec_modify(*elem, m, width) {
                Ok(e2) => Ok(Type::Pointer { elem: Box::new(e2), llvm_elem, is_const }),
                Err(e) => Err(e),
            },
        },
        Type::Vector { elem, length, bitcast } => match m {
            Modifier::Scalarize => Ok(*elem),
            Modifier::HalveLanes => Ok(
                Type::Vector { elem, length: (length / 2) as u32, bitcast: None },
            ),
            Modifier::DoubleLanes => if length <= u32::MAX / 2 {
                Ok(Type::Vector { elem, length: (length * 2) as u32, bitcast: None })
            } else {
                Err(Error::InvalidWidth { width: length })
            },
            Modifier::ForceWidth(n) => if spec_bitwidth(*elem) == 0 {
                Err(Error::InvalidWidth { width: 0u32 })
            } else {
                Ok(
                    Type::Vector {
                        elem,
                        length: (n / spec_bitwidth(*elem)) as u32,
                        bitcast: None,
                    },
                )
            },
            _ => match spec_modify(*elem, m, width) {
                Ok(e2) => Ok(Type::Vector { elem: Box::new(e2), length, bitcast: None }),
                Err(e) => Err(e),
            },
        },
        Type::Aggregate { flatten, elems } => match m {
            Modifier::Index(i) => if (i as nat) < tl_len(elems) {
                Ok(tl_nth(elems, i as nat))
            } else {
                Err(Error::UnsupportedModifier)
            },
            _ => Err(Error::UnsupportedModifier),
        },
    }
}

impl Clone for TypeList {
    /// A deep copy of an aggregate's child chain.
    fn clone(&self) -> (res: TypeList)
        ensures
            res == *self,
        decreases self,
    {
        match self {
            TypeList::Empty => TypeList::Empty,
            TypeList::Item { first, rest } => TypeList::Item {
                first: Box::new((**first).clone()),
                rest: Box::new((**rest).clone()),
            },
        }
    }
}

impl TypeList {
    /// A copy of the i-th child, or `None` past the end.
    pub fn nth_clone(&self, i: usize) -> (r: Option<Type>)
        ensures
            (i as nat) < tl_len(*self) ==> r == Some(tl_nth(*self, i as nat)),
            (i as nat) >= tl_len(*self) ==> r is None,
        decreases self,
    {
        match self {
            TypeList::Empty => None,
            TypeList::Item { first, rest } => if i == 0 {
                Some((**first).clone())
            } else {
                rest.nth_clone(i - 1)
            },
        }
    }
}

impl Clone for Type {
    /// A deep copy: the tree is owned exclusively, so cloning copies it whole.
    fn clone(&self) -> (res: Type)
        ensures
            res == *self,
        decreases self,
    {
        match self {
            Type::Void => Type::Void,
            Type::Num(n) => Type::Num(*n),
            Type::Pointer { elem, llvm_elem, is_const } => {
                let le: Option<Box<Type>> = match llvm_elem {
                    Some(l) => Some(Box::new((**l).clone())),
                    None => None,
                };
                Type::Pointer {
                    elem: Box::new((**elem).clone()),
                    llvm_elem: le,
                    is_const: *is_const,
                }
            },
            Type::Vector { elem, length, bitcast } => {
                let bc: Option<Box<Type>> = match bitcast {
                    Some(b) => Some(Box::new((**b).clone())),
                    None => None,
                };
                Type::Vector { elem: Box::new((**elem).clone()), length: *length, bitcast: bc }
            },
            Type::Aggregate { flatten, elems } => Type::Aggregate {
                flatten: *flatten,
                elems: elems.clone(),
            },
        }
    }
}

impl Type {
    /// The storage bit width this type reports: a scalar number's width,
    /// zero for every other tag.
    pub fn bitwidth(&self) -> (r: u32)
        ensures
            r == spec_bitwidth(*self),
    {
        match self {
            Type::Num(n) => n.bitwidth,
            _ => 0u32,
        }
    }

    /// Applies one modifier, per the modifier table of the type algebra
    /// (`spec_modify`).
    pub fn modify(self, m: &Modifier, width: u32) -> (r: Result<Type, Error>)
        ensures
            r == spec_modify(self, *m, width),
        decreases self,
    {
        match self {
            Type::Void => Err(Error::UnsupportedModifier),
            Type::Num(n) => match m {
                Modifier::ToUnsigned => Ok(
                    Type::Num(
                        Number {
                            kind: NumKind::Unsigned,
                            bitwidth: n.bitwidth,
                            llvm_bitwidth: None,
                        },
                    ),
                ),
                Modifier::ToSigned => Ok(
                    Type::Num(
                        Number { kind: NumKind::Signed, bitwidth: n.bitwidth, llvm_bitwidth: None },
                    ),
                ),
                Modifier::ToFloat => Ok(
                    Type::Num(
                        Number { kind: NumKind::Float, bitwidth: n.bitwidth, llvm_bitwidth: None },
                    ),
                ),
                Modifier::Widen => if n.bitwidth <= u32::MAX / 2 {
                    Ok(
                        Type::Num(
                            Number { kind: n.kind, bitwidth: n.bitwidth * 2, llvm_bitwidth: None },
                        ),
                    )
                } else {
                    Err(Error::InvalidWidth { width: n.bitwidth })
                },
                Modifier::Narrow => Ok(
                    Type::Num(
                        Number { kind: n.kind, bitwidth: n.bitwidth / 2, llvm_bitwidth: None },
                    ),
                ),
                Modifier::Vectorize => if n.bitwidth == 0 {
                    Err(Error::InvalidWidth { width: 0u32 })
                } else {
                    Ok(
                        Type::Vector {
                            elem: Box::new(Type::Num(n)),
                            length: width / n.bitwidth,
                            bitcast: None,
                        },
                    )
                },
                _ => Err(Error::UnsupportedModifier),
            },
            Type::Pointer { elem, llvm_elem, is_const } => match m {
                Modifier::Deref => Ok(*elem),
                Modifier::ForceMut => Ok(Type::Pointer { elem, llvm_elem, is_const: false }),
                Modifier::ForceConst => Ok(Type::Pointer { elem, llvm_elem, is_const: true }),
                _ => match (*elem).modify(m, width) {
                    Ok(e2) => Ok(Type::Pointer { elem: Box::new(e2), llvm_elem, is_const }),
                    Err(e) => Err(e),
                },
            },
            Type::Vector { elem, length, bitcast } => match m {
                Modifier::Scalarize => Ok(*elem),
                Modifier::HalveLanes => Ok(
                    Type::Vector { elem, length: length / 2, bitcast: None },
                ),
                Modifier::DoubleLanes => if length <= u32::MAX / 2 {
                    Ok(Type::Vector { elem, length: length * 2, bitcast: None })
                } else {
                    Err(Error::InvalidWidth { width: length })
                },
                Modifier::ForceWidth(n) => {
                    let bw = elem.bitwidth();
                    if bw == 0 {
                        Err(Error::InvalidWidth { width: 0u32 })
                    } else {
                        Ok(Type::Vector { elem, length: *n / bw, bitcast: None })
                    }
                },
                _ => match (*elem).modify(m, width) {
                    Ok(e2) => Ok(Type::Vector { elem: Box::new(e2), length, bitcast: None }),
                    Err(e) => Err(e),
                },
            },
            Type::Aggregate { flatten, elems } => match m {
                Modifier::Index(i) => match elems.nth_clone(*i) {
                    Some(t) => Ok(t),
                    None => Err(Error::UnsupportedModifier),
                },
                _ => Err(Error::UnsupportedModifier),
            },
        }
    }
}

} // verus!

verus! {

use crate::token::NumClass;
use crate::token::SpecToken;
use crate::token::Suffix;
use crate::token::SuffixModel;
use crate::token::TokenKind;
use crate::token::TokenModel;
use crate::token::WidthSpec;
use crate::token::class_kinds;
use crate::token::parse_token;
use crate::token::spec_parse;
use crate::token::suffix_model;
use crate::token::token_model;

/// The inclusive doubling width progression `start, 2*start, ...` up to
/// `end`. Empty when `start` is zero (the progression would not advance) or
/// exceeds `end`.
pub open spec fn widths_from(start: int, end: int) -> Seq<u32>
    decreases end - start,
{
    if start < 1 || start > end || end > u32::MAX {
        Seq::empty()
    } else if 2 * start > end {
        seq![start as u32]
    } else {
        seq![start as u32] + widths_from(2 * start, end)
    }
}

/// What setting a bitcast does: a vector records the target type; a
/// pointer passes it through to its pointee; any other tag refuses it.
pub open spec fn spec_set_bitcast(t: Type, target: Type) -> Result<Type, Error>
    decreases t,
{
    match t {
        Type::Void => Err(Error::UnsupportedModifier),
        Type::Num(n) => Err(Error::UnsupportedModifier),
        Type::Pointer { elem, llvm_elem, is_const } => match spec_set_bitcast(*elem, target) {
            Ok(e2) => Ok(Type::Pointer { elem: Box::new(e2), llvm_elem, is_const }),
            Err(e) => Err(e),
        },
        Type::Vector { elem, length, bitcast } => Ok(
            Type::Vector { elem, length, bitcast: Some(Box::new(target)) },
        ),
        Type::Aggregate { .. } => Err(Error::UnsupportedModifier),
    }
}

/// Applies a modifier sequence left to right; the first failure aborts.
pub open spec fn spec_apply_mods(t: Type, mods: Seq<Modifier>, width: u32) -> Result<Type, Error>
    decreases mods.len(),
{
    if mods.len() == 0 {
        Ok(t)
    } else {
        match spec_modify(t, mods[0], width) {
            Ok(t2) => spec_apply_mods(t2, mods.drop_first(), width),
            Err(e) => Err(e),
        }
    }
}

/// Applies the trailing suffix: no suffix returns the value unchanged; a
/// pointer suffix wraps it (the optional pointee sub-token must enumerate to
/// exactly one type); a bitcast suffix records the unique type its sub-token
/// enumerates to.
pub open spec fn spec_apply_suffix(t: Type, sfx: SuffixModel, width: u32, prev: Seq<Type>) -> Result<
    Type,
    Error,
>
    decreases sfx, 0int, 0int,
{
    match sfx {
        SuffixModel::Plain => Ok(t),
        SuffixModel::Pointer { is_const, llvm_pointee } => match llvm_pointee {
            None => Ok(Type::Pointer { elem: Box::new(t), llvm_elem: None, is_const }),
            Some(sub) => match spec_enum_token(*sub, width, prev) {
                Err(e) => Err(e),
                Ok(choices) => if choices.len() != 1 {
                    Err(Error::AmbiguousPointee { count: choices.len() as usize })
                } else {
                    Ok(
                        Type::Pointer {
                            elem: Box::new(t),
                            llvm_elem: Some(Box::new(choices[0])),
                            is_const,
                        },
                    )
                },
            },
        },
        SuffixModel::Bitcast { target } => match spec_enum_token(*target, width, prev) {
            Err(e) => Err(e),
            Ok(choices) => if choices.len() != 1 {
                Err(Error::AmbiguousBitcast { count: choices.len() as usize })
            } else {
                spec_set_bitcast(t, choices[0])
            },
        },
    }
}

/// One scalar (or initially vectorized) base per kind at one width, with the
/// token's modifiers and suffix applied; generation order follows the kind
/// sequence. An explicit narrow LLVM width must be strictly smaller than the
/// storage width and is illegal on a vectorizing token: violations fail with
/// `InvalidWidth` naming the narrow width.
pub open spec fn spec_enum_kinds(
    bw: u32,
    kinds: Seq<NumKind>,
    vector: bool,
    llvm: Option<u32>,
    mods: Seq<Modifier>,
    sfx: SuffixModel,
    width: u32,
    prev: Seq<Type>,
) -> Result<Seq<Type>, Error>
    decreases sfx, 1int, kinds.len(),
{
    if kinds.len() == 0 {
        Ok(Seq::empty())
    } else if vector && bw == 0 {
        Err(Error::InvalidWidth { width: 0u32 })
    } else if llvm is Some && (vector || llvm->Some_0 >= bw) {
        Err(Error::InvalidWidth { width: llvm->Some_0 })
    } else {
        let scalar = Number { kind: kinds[0], bitwidth: bw, llvm_bitwidth: llvm };
        let base = if vector {
            Type::Vector {
                elem: Box::new(Type::Num(scalar)),
                length: (width / bw) as u32,
                bitcast: None,
            }
        } else {
            Type::Num(scalar)
        };
        match spec_apply_mods(base, mods, width) {
            Err(e) => Err(e),
            Ok(t1) => match spec_apply_suffix(t1, sfx, width, prev) {
                Err(e) => Err(e),
                Ok(t2) => match spec_enum_kinds(
                    bw,
                    kinds.drop_first(),
                    vector,
                    llvm,
                    mods,
                    sfx,
                    width,
                    prev,
                ) {
                    Err(e) => Err(e),
                    Ok(rest) => Ok(seq![t2] + rest),
                },
            },
        }
    }
}

/// The widths progression crossed with the kind set, width-major.
pub open spec fn spec_enum_widths(
    bws: Seq<u32>,
    kinds: Seq<NumKind>,
    vector: bool,
    llvm: Option<u32>,
    mods: Seq<Modifier>,
    sfx: SuffixModel,
    width: u32,
    prev: Seq<Type>,
) -> Result<Seq<Type>, Error>
    decreases sfx, 2int, bws.len(),
{
    if bws.len() == 0 {
        Ok(Seq::empty())
    } else {
        match spec_enum_kinds(bws[0], kinds, vector, llvm, mods, sfx, width, prev) {
            Err(e) => Err(e),
            Ok(first) => match spec_enum_widths(
                bws.drop_first(),
                kinds,
                vector,
                llvm,
                mods,
                sfx,
                width,
                prev,
            ) {
                Err(e) => Err(e),
                Ok(rest) => Ok(first + rest),
            },
        }
    }
}

/// Every concrete type one parsed token denotes, given the platform width
/// and the already-resolved preceding slots.
///
/// A `V` token yields `Void` alone (its modifiers and suffix are ignored).
/// An `id` token crosses its width progression with its class's kind set. A
/// reference token clones the earlier slot it names, or fails with
/// `UnknownReference`.
pub open spec fn spec_enum_token(m: TokenModel, width: u32, prev: Seq<Type>) -> Result<
    Seq<Type>,
    Error,
>
    decreases m, 1int, 0int,
{
    match m.kind {
        TokenKind::Void => Ok(seq![Type::Void]),
        TokenKind::Reference { index } => if index as int >= prev.len() {
            Err(Error::UnknownReference { index, known: prev.len() as usize })
        } else {
            match spec_apply_mods(prev[index as int], m.modifiers, width) {
                Err(e) => Err(e),
                Ok(t1) => match spec_apply_suffix(t1, m.suffix, width, prev) {
                    Err(e) => Err(e),
                    Ok(t2) => Ok(seq![t2]),
                },
            }
        },
        TokenKind::Id { class, vector, widths } => {
            let bws = match widths {
                WidthSpec::Single { width: bw, .. } => seq![bw],
                WidthSpec::Range { start, end } => widths_from(start as int, end as int),
            };
            let llvm = match widths {
                WidthSpec::Single { llvm_width, .. } => llvm_width,
                WidthSpec::Range { .. } => None,
            };
            spec_enum_widths(bws, class_kinds(class), vector, llvm, m.modifiers, m.suffix, width, prev)
        },
    }
}

/// The outcome of enumerating a whole slot: its types, or the raw token that
/// failed to parse, or the first enumeration failure.
pub enum SlotOutcome {
    Types(Seq<Type>),
    BadToken(Seq<char>),
    Failed(Error),
}

/// Token-by-token enumeration of a slot: all per-token results concatenated,
/// the first failure aborting the slot.
pub open spec fn spec_enumerate(strs: Seq<Seq<char>>, width: u32, prev: Seq<Type>) -> SlotOutcome
    decreases strs.len(),
{
    if strs.len() == 0 {
        SlotOutcome::Types(Seq::empty())
    } else {
        match spec_parse(strs[0]) {
            None => SlotOutcome::BadToken(strs[0]),
            Some(m) => match spec_enum_token(m, width, prev) {
                Err(e) => SlotOutcome::Failed(e),
                Ok(ts) => match spec_enumerate(strs.drop_first(), width, prev) {
                    SlotOutcome::Types(rest) => SlotOutcome::Types(ts + rest),
                    other => other,
                },
            },
        }
    }
}

} // verus!

verus! {

/// The doubling width progression as a vector.
fn width_progression(start: u32, end: u32) -> (r: Vec<u32>)
    ensures
        r@ == widths_from(start as int, end as int),
    decreases end - start,
{
    if start < 1 || start > end {
        let v: Vec<u32> = Vec::new();
        proof {
            assert(v@ =~= widths_from(start as int, end as int));
        }
        v
    } else if start > end / 2 {
        let mut v: Vec<u32> = Vec::new();
        v.push(start);
        proof {
            assert(2 * start > end);
            assert(v@ =~= widths_from(start as int, end as int));
        }
        v
    } else {
        let mut v: Vec<u32> = Vec::new();
        v.push(start);
        let mut rest = width_progression(start * 2, end);
        v.append(&mut rest);
        proof {
            assert(v@ =~= widths_from(start as int, end as int));
        }
        v
    }
}

/// Records a bitcast target, per `spec_set_bitcast`.
fn set_bitcast(t: Type, target: Type) -> (r: Result<Type, Error>)
    ensures
        r == spec_set_bitcast(t, target),
    decreases t,
{
    match t {
        Type::Void => Err(Error::UnsupportedModifier),
        Type::Num(_) => Err(Error::UnsupportedModifier),
        Type::Pointer { elem, llvm_elem, is_const } => match set_bitcast(*elem, target) {
            Ok(e2) => Ok(Type::Pointer { elem: Box::new(e2), llvm_elem, is_const }),
            Err(e) => Err(e),
        },
        Type::Vector { elem, length, bitcast } => Ok(
            Type::Vector { elem, length, bitcast: Some(Box::new(target)) },
        ),
        Type::Aggregate { flatten, elems } => Err(Error::UnsupportedModifier),
    }
}

/// Applies the modifiers `mods[from..]` left to right.
fn apply_mods(t: Type, mods: &Vec<Modifier>, from: usize, width: u32) -> (r: Result<Type, Error>)
    requires
        from <= mods.len(),
    ensures
        r == spec_apply_mods(t, mods@.skip(from as int), width),
    decreases mods.len() - from,
{
    if from < mods.len() {
        let m = mods[from];
        proof {
            assert(mods@.skip(from as int)[0] == mods@[from as int]);
            assert(mods@.skip(from as int).drop_first() =~= mods@.skip(from as int + 1));
        }
        match t.modify(&m, width) {
            Ok(t2) => apply_mods(t2, mods, from + 1, width),
            Err(e) => Err(e),
        }
    } else {
        proof {
            assert(mods@.skip(from as int) =~= Seq::<Modifier>::empty());
        }
        Ok(t)
    }
}

/// Applies the token's trailing suffix, per `spec_apply_suffix`.
fn apply_suffix(t: Type, sfx: &Suffix, width: u32, previous: &[Type]) -> (r: Result<Type, Error>)
    ensures
        r == spec_apply_suffix(t, suffix_model(*sfx), width, previous@),
    decreases sfx, 0int, 0int,
{
    match sfx {
        Suffix::Plain => Ok(t),
        Suffix::Pointer { is_const, llvm_pointee } => match llvm_pointee {
            None => Ok(Type::Pointer { elem: Box::new(t), llvm_elem: None, is_const: *is_const }),
            Some(sub) => match enumerate_token(&**sub, width, previous) {
                Err(e) => Err(e),
                Ok(mut choices) => if choices.len() != 1 {
                    Err(Error::AmbiguousPointee { count: choices.len() })
                } else {
                    let c = choices.pop().unwrap();
                    proof {
                        assert(c == spec_enum_token(
                            token_model(**sub),
                            width,
                            previous@,
                        )->Ok_0[0]);
                    }
                    Ok(
                        Type::Pointer {
                            elem: Box::new(t),
                            llvm_elem: Some(Box::new(c)),
                            is_const: *is_const,
                        },
                    )
                },
            },
        },
        Suffix::Bitcast { target } => match enumerate_token(&**target, width, previous) {
            Err(e) => Err(e),
            Ok(mut choices) => if choices.len() != 1 {
                Err(Error::AmbiguousBitcast { count: choices.len() })
            } else {
                let c = choices.pop().unwrap();
                proof {
                    assert(c == spec_enum_token(token_model(**target), width, previous@)->Ok_0[0]);
                }
                set_bitcast(t, c)
            },
        },
    }
}

/// One result per kind at one width, per `spec_enum_kinds`.
fn enum_kinds(
    bw: u32,
    kinds: &Vec<NumKind>,
    ki: usize,
    vector: bool,
    llvm: Option<u32>,
    mods: &Vec<Modifier>,
    sfx: &Suffix,
    width: u32,
    previous: &[Type],
) -> (r: Result<Vec<Type>, Error>)
    requires
        ki <= kinds.len(),
    ensures
        match spec_enum_kinds(
            bw,
            kinds@.skip(ki as int),
            vector,
            llvm,
            mods@,
            suffix_model(*sfx),
            width,
            previous@,
        ) {
            Ok(s) => r matches Ok(v) && v@ == s,
            Err(e) => r matches Err(e2) && e2 == e,
        },
    decreases sfx, 1int, kinds.len() - ki,
{
    proof {
        assert(kinds@.skip(ki as int).len() == kinds.len() - ki);
    }
    if ki >= kinds.len() {
        let v: Vec<Type> = Vec::new();
        proof {
            assert(v@ =~= Seq::<Type>::empty());
        }
        Ok(v)
    } else if vector && bw == 0 {
        Err(Error::InvalidWidth { width: 0u32 })
    } else if llvm.is_some() && (vector || llvm.unwrap() >= bw) {
        Err(Error::InvalidWidth { width: llvm.unwrap() })
    } else {
        proof {
            assert(kinds@.skip(ki as int)[0] == kinds@[ki as int]);
            assert(kinds@.skip(ki as int).drop_first() =~= kinds@.skip(ki as int + 1));
        }
        let kind = kinds[ki];
        let scalar = Number { kind, bitwidth: bw, llvm_bitwidth: llvm };
        let base = if vector {
            Type::Vector { elem: Box::new(Type::Num(scalar)), length: width / bw, bitcast: None }
        } else {
            Type::Num(scalar)
        };
        proof {
            assert(mods@.skip(0int) =~= mods@);
        }
        match apply_mods(base, mods, 0, width) {
            Err(e) => Err(e),
            Ok(t1) => {
                match apply_suffix(t1, sfx, width, previous) {
                    Err(e) => Err(e),
                    Ok(t2) => match enum_kinds(
                        bw,
                        kinds,
                        ki + 1,
                        vector,
                        llvm,
                        mods,
                        sfx,
                        width,
                        previous,
                    ) {
                        Err(e) => Err(e),
                        Ok(mut rest) => {
                            let ghost grest = rest@;
                            rest.insert(0, t2);
                            proof {
                                assert(rest@ =~= seq![t2] + grest);
                            }
                            Ok(rest)
                        },
                    },
                }
            },
        }
    }
}

/// The widths progression crossed with the kind set, per `spec_enum_widths`.
fn enum_widths(
    bws: &Vec<u32>,
    wi: usize,
    kinds: &Vec<NumKind>,
    vector: bool,
    llvm: Option<u32>,
    mods: &Vec<Modifier>,
    sfx: &Suffix,
    width: u32,
    previous: &[Type],
) -> (r: Result<Vec<Type>, Error>)
    requires
        wi <= bws.len(),
    ensures
        match spec_enum_widths(
            bws@.skip(wi as int),
            kinds@,
            vector,
            llvm,
            mods@,
            suffix_model(*sfx),
            width,
            previous@,
        ) {
            Ok(s) => r matches Ok(v) && v@ == s,
            Err(e) => r matches Err(e2) && e2 == e,
        },
    decreases sfx, 2int, bws.len() - wi,
{
    proof {
        assert(bws@.skip(wi as int).len() == bws.len() - wi);
    }
    if wi >= bws.len() {
        let v: Vec<Type> = Vec::new();
        proof {
            assert(v@ =~= Seq::<Type>::empty());
        }
        Ok(v)
    } else {
        proof {
            assert(bws@.skip(wi as int)[0] == bws@[wi as int]);
            assert(bws@.skip(wi as int).drop_first() =~= bws@.skip(wi as int + 1));
        }
        proof {
            assert(kinds@.skip(0int) =~= kinds@);
        }
        match enum_kinds(bws[wi], kinds, 0, vector, llvm, mods, sfx, width, previous) {
            Err(e) => Err(e),
            Ok(mut first) => {
                match enum_widths(bws, wi + 1, kinds, vector, llvm, mods, sfx, width, previous) {
                    Err(e) => Err(e),
                    Ok(mut rest) => {
                        first.append(&mut rest);
                        Ok(first)
                    },
                }
            },
        }
    }
}

/// The kind vector a class letter generates.
fn class_kinds_exec(c: NumClass) -> (r: Vec<NumKind>)
    ensures
        r@ == class_kinds(c),
{
    let mut v: Vec<NumKind> = Vec::new();
    match c {
        NumClass::Int => {
            v.push(NumKind::Signed);
            v.push(NumKind::Unsigned);
        },
        NumClass::Signed => {
            v.push(NumKind::Signed);
        },
        NumClass::Unsigned => {
            v.push(NumKind::Unsigned);
        },
        NumClass::Float => {
            v.push(NumKind::Float);
        },
    }
    proof {
        assert(v@ =~= class_kinds(c));
    }
    v
}

/// Every concrete type one parsed token denotes, per `spec_enum_token`.
fn enumerate_token(t: &SpecToken, width: u32, previous: &[Type]) -> (r: Result<Vec<Type>, Error>)
    ensures
        match spec_enum_token(token_model(*t), width, previous@) {
            Ok(s) => r matches Ok(v) && v@ == s,
            Err(e) => r matches Err(e2) && e2 == e,
        },
    decreases t, 1int, 0int,
{
    match &t.kind {
        TokenKind::Void => {
            let mut v: Vec<Type> = Vec::new();
            v.push(Type::Void);
            proof {
                assert(v@ =~= seq![Type::Void]);
            }
            Ok(v)
        },
        TokenKind::Reference { index } => {
            if *index >= previous.len() {
                Err(Error::UnknownReference { index: *index, known: previous.len() })
            } else {
                let t0 = previous[*index].clone();
                proof {
                    assert(t.modifiers@.skip(0int) =~= t.modifiers@);
                }
                match apply_mods(t0, &t.modifiers, 0, width) {
                    Err(e) => Err(e),
                    Ok(t1) => {
                        match apply_suffix(t1, &t.suffix, width, previous) {
                            Err(e) => Err(e),
                            Ok(t2) => {
                                let mut v: Vec<Type> = Vec::new();
                                v.push(t2);
                                proof {
                                    assert(v@ =~= seq![
                                        spec_apply_suffix(
                                            spec_apply_mods(
                                                previous@[*index as int],
                                                t.modifiers@,
                                                width,
                                            )->Ok_0,
                                            suffix_model(t.suffix),
                                            width,
                                            previous@,
                                        )->Ok_0,
                                    ]);
                                }
                                Ok(v)
                            },
                        }
                    },
                }
            }
        },
        TokenKind::Id { class, vector, widths } => {
            let bws: Vec<u32> = match widths {
                WidthSpec::Single { width: bw, .. } => {
                    let mut v: Vec<u32> = Vec::new();
                    v.push(*bw);
                    proof {
                        assert(v@ =~= seq![*bw]);
                    }
                    v
                },
                WidthSpec::Range { start, end } => width_progression(*start, *end),
            };
            let llvm: Option<u32> = match widths {
                WidthSpec::Single { llvm_width, .. } => *llvm_width,
                WidthSpec::Range { .. } => None,
            };
            let kinds = class_kinds_exec(*class);
            proof {
                assert(bws@.skip(0int) =~= bws@);
            }
            enum_widths(&bws, 0, &kinds, *vector, llvm, &t.modifiers, &t.suffix, width, previous)
        },
    }
}

} // verus!

verus! {

/// An ordered list of raw spec tokens describing one polymorphic slot; the
/// slot denotes the union of its tokens' expansions.
#[derive(Debug)]
pub struct TypeSpec {
    tokens: Vec<String>,
}

impl View for TypeSpec {
    type V = Seq<Seq<char>>;

    closed spec fn view(&self) -> Seq<Seq<char>> {
        self.tokens.deep_view()
    }
}

impl Clone for TypeSpec {
    /// Copies the raw token list (the new value denotes the same slot).
    fn clone(&self) -> (res: TypeSpec)
        ensures
            res@ == self@,
    {
        let mut v: Vec<String> = Vec::new();
        let mut i: usize = 0;
        while i < self.tokens.len()
            invariant
                i <= self.tokens.len(),
                v@.len() == i,
                forall|j: int| 0 <= j < i ==> v@[j]@ == self.tokens@[j]@,
            decreases self.tokens.len() - i,
        {
            v.push(self.tokens[i].clone());
            i = i + 1;
        }
        let res = TypeSpec { tokens: v };
        proof {
            assert(res@ =~= self@);
        }
        res
    }
}

impl TypeSpec {
    /// A slot of one raw token.
    pub fn from_str(s: &str) -> (r: TypeSpec)
        ensures
            r@ =~= seq![s@],
    {
        let mut v: Vec<String> = Vec::new();
        v.push(s.to_owned());
        let r = TypeSpec { tokens: v };
        proof {
            assert(r@ =~= seq![s@]);
        }
        r
    }

    /// A slot of several raw tokens, evaluated token by token.
    pub fn from_list(v: &[String]) -> (r: TypeSpec)
        ensures
            r@ == v.deep_view(),
    {
        let mut w: Vec<String> = Vec::new();
        let mut i: usize = 0;
        while i < v.len()
            invariant
                i <= v@.len(),
                w@.len() == i,
                forall|j: int| 0 <= j < i ==> w@[j]@ == v@[j]@,
            decreases v@.len() - i,
        {
            let s: &String = &v[i];
            w.push(s.clone());
            i = i + 1;
        }
        let r = TypeSpec { tokens: w };
        proof {
            assert(r@ =~= v.deep_view());
        }
        r
    }

    /// Every concrete type this slot denotes at `width`, with
    /// already-resolved preceding slots available for back-references
    /// (`spec_enumerate`): the concatenation of all per-token expansions, or
    /// the first failure.
    pub fn enumerate(&self, width: u32, previous: &[Type]) -> (r: Result<Vec<Type>, Error>)
        ensures
            match spec_enumerate(self@, width, previous@) {
                SlotOutcome::Types(s) => r matches Ok(v) && v@ == s,
                SlotOutcome::BadToken(tok) => r matches Err(e) && (e matches Error::Parse { token }
                    && token@ == tok),
                SlotOutcome::Failed(e) => r matches Err(e2) && e2 == e,
            },
    {
        proof {
            assert(self.tokens.deep_view().skip(0int) =~= self@);
        }
        enumerate_from(&self.tokens, 0, width, previous)
    }
}

/// Enumerates the tokens `toks[from..]`, concatenating their expansions.
fn enumerate_from(toks: &Vec<String>, from: usize, width: u32, previous: &[Type]) -> (r: Result<
    Vec<Type>,
    Error,
>)
    requires
        from <= toks.len(),
    ensures
        match spec_enumerate(toks.deep_view().skip(from as int), width, previous@) {
            SlotOutcome::Types(s) => r matches Ok(v) && v@ == s,
            SlotOutcome::BadToken(tok) => r matches Err(e) && (e matches Error::Parse { token }
                && token@ == tok),
            SlotOutcome::Failed(e) => r matches Err(e2) && e2 == e,
        },
    decreases toks.len() - from,
{
    proof {
        assert(toks.deep_view().skip(from as int).len() == toks.len() - from);
    }
    if from >= toks.len() {
        let v: Vec<Type> = Vec::new();
        proof {
            assert(v@ =~= Seq::<Type>::empty());
        }
        Ok(v)
    } else {
        proof {
            assert(toks.deep_view().skip(from as int)[0] == toks@[from as int]@);
            assert(toks.deep_view().skip(from as int).drop_first() =~= toks.deep_view().skip(
                from as int + 1,
            ));
        }
        match parse_token(toks[from].as_str()) {
            Err(e) => Err(e),
            Ok(st) => match enumerate_token(&st, width, previous) {
                Err(e) => Err(e),
                Ok(mut first) => match enumerate_from(toks, from + 1, width, previous) {
                    Err(e) => Err(e),
                    Ok(mut rest) => {
                        first.append(&mut rest);
                        Ok(first)
                    },
                },
            },
        }
    }
}

} // verus!
