//! The spec token grammar: one raw token string is parsed into a structured
//! `SpecToken` capture, so that each field's legality is explicit per token
//! kind.
//!
//! Grammar, anchored over the whole string:
//!
//! ```text
//! token  := ( "V" | CLASS widths | DIGIT+ )
//!           ("." DIGIT+)?  MODIFIER*  ("x" DIGIT+)?
//!           ( ("Pm"|"Pc") ("/" token)?  |  "->" token )?
//! widths := DIGIT+ ("/" DIGIT+)?  |  "(" DIGIT+ "-" DIGIT+ ")"
//! CLASS  := one of i u s f I U S F   (lowercase vectorizes)
//! ```
//!
//! Width values must fit in 32 bits; a width or a range start of zero is
//! rejected (the doubling progression would not advance). A `/LLVM_WIDTH` is
//! grammatical only on a single (non-range) width; that it is strictly
//! smaller than that width, and that the token does not vectorize, is
//! enforced at enumeration, which fails with `InvalidWidth` otherwise.

use vstd::prelude::*;

use crate::typespec::Error;
use crate::typespec::Modifier;
use crate::typespec::NumKind;

verus! {

/// The kind set a class letter selects: `i` generates both signed and
/// unsigned, the others exactly one kind.
#[derive(Clone, Copy, Debug, PartialEq, Eq, Structural)]
pub enum NumClass {
    Int,
    Signed,
    Unsigned,
    Float,
}

/// The width part of an `id` token: one explicit width (with an optional
/// narrower LLVM-visible width), or an inclusive doubling range.
#[derive(Clone, Copy, Debug)]
pub enum WidthSpec {
    Single { width: u32, llvm_width: Option<u32> },
    Range { start: u32, end: u32 },
}

/// What the head of a token denotes: `V`, a class letter with widths, or a
/// positional back-reference.
#[derive(Clone, Copy, Debug)]
pub enum TokenKind {
    Void,
    Id { class: NumClass, vector: bool, widths: WidthSpec },
    Reference { index: usize },
}

/// The trailing, mutually exclusive suffix: a pointer wrapping (with an
/// optional LLVM-visible pointee sub-token) or a bitcast sub-token.
#[derive(Debug)]
pub enum Suffix {
    Plain,
    Pointer { is_const: bool, llvm_pointee: Option<Box<SpecToken>> },
    Bitcast { target: Box<SpecToken> },
}

/// The structured capture of one raw spec token.
#[derive(Debug)]
pub struct SpecToken {
    pub kind: TokenKind,
    pub modifiers: Vec<Modifier>,
    pub suffix: Suffix,
}

/// The mathematical shape of a parsed token: `SpecToken` with its modifier
/// list as a sequence.
pub struct TokenModel {
    pub kind: TokenKind,
    pub modifiers: Seq<Modifier>,
    pub suffix: SuffixModel,
}

pub enum SuffixModel {
    Plain,
    Pointer { is_const: bool, llvm_pointee: Option<Box<TokenModel>> },
    Bitcast { target: Box<TokenModel> },
}

pub open spec fn suffix_model(s: Suffix) -> SuffixModel
    decreases s,
{
    match s {
        Suffix::Plain => SuffixModel::Plain,
        Suffix::Pointer { is_const, llvm_pointee } => SuffixModel::Pointer {
            is_const,
            llvm_pointee: match llvm_pointee {
                Some(t) => Some(Box::new(token_model(*t))),
                None => None,
            },
        },
        Suffix::Bitcast { target } => SuffixModel::Bitcast {
            target: Box::new(token_model(*target)),
        },
    }
}

pub open spec fn token_model(t: SpecToken) -> TokenModel
    decreases t,
{
    TokenModel { kind: t.kind, modifiers: t.modifiers@, suffix: suffix_model(t.suffix) }
}

/// The kinds a class letter generates, in generation order.
pub open spec fn class_kinds(c: NumClass) -> Seq<NumKind> {
    match c {
        NumClass::Int => seq![NumKind::Signed, NumKind::Unsigned],
        NumClass::Signed => seq![NumKind::Signed],
        NumClass::Unsigned => seq![NumKind::Unsigned],
        NumClass::Float => seq![NumKind::Float],
    }
}

pub open spec fn is_digit(c: char) -> bool {
    48 <= c as u32 <= 57
}

pub open spec fn digit_val(c: char) -> int {
    c as u32 - 48
}

/// The end of the run of digits starting at `i`.
pub open spec fn digits_end(s: Seq<char>, i: int) -> int
    decreases s.len() - i,
{
    if 0 <= i < s.len() && is_digit(s[i]) {
        digits_end(s, i + 1)
    } else {
        i
    }
}

/// The decimal value of `s[i..j]`.
pub open spec fn digits_val(s: Seq<char>, i: int, j: int) -> int
    decreases j - i,
{
    if i >= j {
        0
    } else {
        digits_val(s, i, j - 1) * 10 + digit_val(s[j - 1])
    }
}

/// The class letter map: which kinds a letter generates and whether it
/// vectorizes (lowercase does).
pub open spec fn class_of(c: char) -> Option<(NumClass, bool)> {
    match c {
        'i' => Some((NumClass::Int, true)),
        'u' => Some((NumClass::Unsigned, true)),
        's' => Some((NumClass::Signed, true)),
        'f' => Some((NumClass::Float, true)),
        'I' => Some((NumClass::Int, false)),
        'U' => Some((NumClass::Unsigned, false)),
        'S' => Some((NumClass::Signed, false)),
        'F' => Some((NumClass::Float, false)),
        _ => None,
    }
}

/// The single-character modifier map.
pub open spec fn char_modifier(c: char) -> Option<Modifier> {
    match c {
        'v' => Some(Modifier::Vectorize),
        'S' => Some(Modifier::Scalarize),
        'h' => Some(Modifier::HalveLanes),
        'd' => Some(Modifier::DoubleLanes),
        'n' => Some(Modifier::Narrow),
        'w' => Some(Modifier::Widen),
        'u' => Some(Modifier::ToUnsigned),
        's' => Some(Modifier::ToSigned),
        'f' => Some(Modifier::ToFloat),
        'D' => Some(Modifier::Deref),
        'M' => Some(Modifier::ForceMut),
        'C' => Some(Modifier::ForceConst),
        _ => None,
    }
}

/// The end of the run of modifier characters starting at `i`.
pub open spec fn mods_end(s: Seq<char>, i: int) -> int
    decreases s.len() - i,
{
    if 0 <= i < s.len() && char_modifier(s[i]) is Some {
        mods_end(s, i + 1)
    } else {
        i
    }
}

/// The modifiers denoted by the characters of `s[i..j]`.
pub open spec fn mods_seq(s: Seq<char>, i: int, j: int) -> Seq<Modifier>
    decreases j - i,
{
    if i >= j {
        Seq::empty()
    } else {
        match char_modifier(s[i]) {
            Some(m) => seq![m] + mods_seq(s, i + 1, j),
            None => mods_seq(s, i + 1, j),
        }
    }
}

/// The head of a token: its kind and the position just past it.
pub open spec fn parse_head(s: Seq<char>) -> Option<(TokenKind, int)> {
    if s.len() == 0 {
        None
    } else if s[0] == 'V' {
        Some((TokenKind::Void, 1int))
    } else if class_of(s[0]) is Some {
        let class = class_of(s[0])->Some_0.0;
        let vector = class_of(s[0])->Some_0.1;
        if s.len() >= 2 && s[1] == '(' {
            let e1 = digits_end(s, 2);
            let start = digits_val(s, 2, e1);
            if e1 > 2 && 1 <= start <= u32::MAX && e1 < s.len() && s[e1] == '-' {
                let e2 = digits_end(s, e1 + 1);
                let end = digits_val(s, e1 + 1, e2);
                if e2 > e1 + 1 && end <= u32::MAX && e2 < s.len() && s[e2] == ')' {
                    Some(
                        (
                            TokenKind::Id {
                                class,
                                vector,
                                widths: WidthSpec::Range { start: start as u32, end: end as u32 },
                            },
                            e2 + 1,
                        ),
                    )
                } else {
                    None
                }
            } else {
                None
            }
        } else {
            let e1 = digits_end(s, 1);
            let w = digits_val(s, 1, e1);
            if e1 > 1 && 1 <= w <= u32::MAX {
                if e1 < s.len() && s[e1] == '/' {
                    let e2 = digits_end(s, e1 + 1);
                    let lw = digits_val(s, e1 + 1, e2);
                    if e2 > e1 + 1 && lw <= u32::MAX {
                        Some(
                            (
                                TokenKind::Id {
                                    class,
                                    vector,
                                    widths: WidthSpec::Single {
                                        width: w as u32,
                                        llvm_width: Some(lw as u32),
                                    },
                                },
                                e2,
                            ),
                        )
                    } else {
                        None
                    }
                } else {
                    Some(
                        (
                            TokenKind::Id {
                                class,
                                vector,
                                widths: WidthSpec::Single { width: w as u32, llvm_width: None },
                            },
                            e1,
                        ),
                    )
                }
            } else {
                None
            }
        }
    } else if is_digit(s[0]) {
        let e = digits_end(s, 0);
        let v = digits_val(s, 0, e);
        if v <= u32::MAX {
            Some((TokenKind::Reference { index: v as usize }, e))
        } else {
            None
        }
    } else {
        None
    }
}

/// The optional `.N` selector at `i`: its modifier (if present) and the
/// position just past it; `None` on a malformed selector.
pub open spec fn parse_index(s: Seq<char>, i: int) -> Option<(Seq<Modifier>, int)> {
    if 0 <= i < s.len() && s[i] == '.' {
        let e = digits_end(s, i + 1);
        let v = digits_val(s, i + 1, e);
        if e > i + 1 && v <= u32::MAX {
            Some((seq![Modifier::Index(v as usize)], e))
        } else {
            None
        }
    } else {
        Some((Seq::empty(), i))
    }
}

/// The optional `xN` forced width at `i`.
pub open spec fn parse_force(s: Seq<char>, i: int) -> Option<(Seq<Modifier>, int)> {
    if 0 <= i < s.len() && s[i] == 'x' {
        let e = digits_end(s, i + 1);
        let v = digits_val(s, i + 1, e);
        if e > i + 1 && v <= u32::MAX {
            Some((seq![Modifier::ForceWidth(v as u32)], e))
        } else {
            None
        }
    } else {
        Some((Seq::empty(), i))
    }
}

/// The trailing suffix at `i`: the rest of the string must be empty, a
/// pointer suffix, or a bitcast sub-token.
pub open spec fn parse_suffix(s: Seq<char>, i: int) -> Option<SuffixModel>
    decreases s.len(), 0int,
{
    if i == s.len() {
        Some(SuffixModel::Plain)
    } else if 0 <= i && i + 2 <= s.len() && s[i] == 'P' && (s[i + 1] == 'm' || s[i + 1] == 'c') {
        let is_const = s[i + 1] == 'c';
        if i + 2 == s.len() {
            Some(SuffixModel::Pointer { is_const, llvm_pointee: None })
        } else if s[i + 2] == '/' {
            match spec_parse(s.subrange(i + 3, s.len() as int)) {
                Some(t) => Some(
                    SuffixModel::Pointer { is_const, llvm_pointee: Some(Box::new(t)) },
                ),
                None => None,
            }
        } else {
            None
        }
    } else if 0 <= i && i + 2 <= s.len() && s[i] == '-' && s[i + 1] == '>' {
        match spec_parse(s.subrange(i + 2, s.len() as int)) {
            Some(t) => Some(SuffixModel::Bitcast { target: Box::new(t) }),
            None => None,
        }
    } else {
        None
    }
}

/// The parse of one raw token, or `None` where the token does not match the
/// grammar.
pub open spec fn spec_parse(s: Seq<char>) -> Option<TokenModel>
    decreases s.len(), 1int,
{
    match parse_head(s) {
        None => None,
        Some(head) => match parse_index(s, head.1) {
            None => None,
            Some(idx) => {
                let p2 = mods_end(s, idx.1);
                let chmods = mods_seq(s, idx.1, p2);
                match parse_force(s, p2) {
                    None => None,
                    Some(fw) => match parse_suffix(s, fw.1) {
                        None => None,
                        Some(sfx) => Some(
                            TokenModel {
                                kind: head.0,
                                modifiers: idx.0 + chmods + fw.0,
                                suffix: sfx,
                            },
                        ),
                    },
                }
            },
        },
    }
}

} // verus!

verus! {

proof fn lemma_digits_end_bounds(s: Seq<char>, i: int)
    requires
        0 <= i <= s.len(),
    ensures
        i <= digits_end(s, i) <= s.len(),
    decreases s.len() - i,
{
    if i < s.len() && is_digit(s[i]) {
        lemma_digits_end_bounds(s, i + 1);
    }
}

proof fn lemma_mods_end_bounds(s: Seq<char>, i: int)
    requires
        0 <= i <= s.len(),
    ensures
        i <= mods_end(s, i) <= s.len(),
    decreases s.len() - i,
{
    if i < s.len() && char_modifier(s[i]) is Some {
        lemma_mods_end_bounds(s, i + 1);
    }
}

fn class_exec(c: char) -> (r: Option<(NumClass, bool)>)
    ensures
        r == class_of(c),
{
    match c {
        'i' => Some((NumClass::Int, true)),
        'u' => Some((NumClass::Unsigned, true)),
        's' => Some((NumClass::Signed, true)),
        'f' => Some((NumClass::Float, true)),
        'I' => Some((NumClass::Int, false)),
        'U' => Some((NumClass::Unsigned, false)),
        'S' => Some((NumClass::Signed, false)),
        'F' => Some((NumClass::Float, false)),
        _ => None,
    }
}

fn char_mod_exec(c: char) -> (r: Option<Modifier>)
    ensures
        r == char_modifier(c),
{
    match c {
        'v' => Some(Modifier::Vectorize),
        'S' => Some(Modifier::Scalarize),
        'h' => Some(Modifier::HalveLanes),
        'd' => Some(Modifier::DoubleLanes),
        'n' => Some(Modifier::Narrow),
        'w' => Some(Modifier::Widen),
        'u' => Some(Modifier::ToUnsigned),
        's' => Some(Modifier::ToSigned),
        'f' => Some(Modifier::ToFloat),
        'D' => Some(Modifier::Deref),
        'M' => Some(Modifier::ForceMut),
        'C' => Some(Modifier::ForceConst),
        _ => None,
    }
}

fn is_digit_exec(c: char) -> (r: bool)
    ensures
        r == is_digit(c),
{
    let cu = c as u32;
    48 <= cu && cu <= 57
}

/// Scans the run of digits at `i`: where it ends, and its decimal value if
/// that value fits in 32 bits.
fn scan_number(v: &Vec<char>, i: usize) -> (r: (usize, Option<u32>))
    requires
        i <= v.len(),
    ensures
        r.0 as int == digits_end(v@, i as int),
        i <= r.0 <= v.len(),
        match r.1 {
            Some(x) => digits_val(v@, i as int, r.0 as int) <= u32::MAX && x as int == digits_val(
                v@,
                i as int,
                r.0 as int,
            ),
            None => digits_val(v@, i as int, r.0 as int) > u32::MAX,
        },
{
    let mut j: usize = i;
    let mut acc: u32 = 0;
    let mut over: bool = false;
    loop
        invariant
            i <= j <= v.len(),
            digits_end(v@, i as int) == digits_end(v@, j as int),
            !over ==> acc as int == digits_val(v@, i as int, j as int),
            over ==> digits_val(v@, i as int, j as int) > u32::MAX,
        ensures
            i <= j <= v.len(),
            digits_end(v@, i as int) == digits_end(v@, j as int),
            !over ==> acc as int == digits_val(v@, i as int, j as int),
            over ==> digits_val(v@, i as int, j as int) > u32::MAX,
            j == v.len() || !is_digit(v@[j as int]),
        decreases v.len() - j,
    {
        if j >= v.len() {
            break ;
        }
        let c = v[j];
        if !is_digit_exec(c) {
            break ;
        }
        let d: u32 = (c as u32) - 48;
        proof {
            assert(digits_val(v@, i as int, j + 1 as int) == digits_val(v@, i as int, j as int)
                * 10 + digit_val(v@[j as int]));
        }
        if over {
        } else if acc > (u32::MAX - d) / 10 {
            proof {
                let m: int = u32::MAX - d;
                assert(m == 10 * (m / 10) + m % 10);
                assert(acc as int * 10 + d as int > u32::MAX);
            }
            over = true;
        } else {
            acc = acc * 10 + d;
        }
        j = j + 1;
    }
    proof {
        assert(digits_end(v@, j as int) == j as int);
    }
    (j, if over {
        None
    } else {
        Some(acc)
    })
}

/// Scans the head of a token: its kind and the position just past it.
fn scan_head(v: &Vec<char>) -> (r: Option<(TokenKind, usize)>)
    ensures
        match parse_head(v@) {
            Some(h) => {
                &&& r matches Some(x)
                &&& r->Some_0.0 == h.0
                &&& r->Some_0.1 as int == h.1
                &&& r->Some_0.1 <= v.len()
            },
            None => r is None,
        },
{
    proof {
        lemma_digits_end_bounds(v@, 0);
    }
    if v.len() == 0 {
        return None;
    }
    let c = v[0];
    if c == 'V' {
        return Some((TokenKind::Void, 1));
    }
    match class_exec(c) {
        Some(cv) => {
            let class = cv.0;
            let vector = cv.1;
            if v.len() >= 2 && v[1] == '(' {
                let sn = scan_number(v, 2);
                let e1 = sn.0;
                match sn.1 {
                    Some(start) if e1 > 2 && start >= 1 && e1 < v.len() && v[e1] == '-' => {
                        let sn2 = scan_number(v, e1 + 1);
                        let e2 = sn2.0;
                        match sn2.1 {
                            Some(end) if e2 > e1 + 1 && e2 < v.len() && v[e2] == ')' => {
                                Some(
                                    (
                                        TokenKind::Id {
                                            class,
                                            vector,
                                            widths: WidthSpec::Range { start, end },
                                        },
                                        e2 + 1,
                                    ),
                                )
                            },
                            _ => None,
                        }
                    },
                    _ => None,
                }
            } else {
                let sn = scan_number(v, 1);
                let e1 = sn.0;
                match sn.1 {
                    Some(w) if e1 > 1 && w >= 1 => {
                        if e1 < v.len() && v[e1] == '/' {
                            let sn2 = scan_number(v, e1 + 1);
                            let e2 = sn2.0;
                            match sn2.1 {
                                Some(lw) if e2 > e1 + 1 => {
                                    Some(
                                        (
                                            TokenKind::Id {
                                                class,
                                                vector,
                                                widths: WidthSpec::Single {
                                                    width: w,
                                                    llvm_width: Some(lw),
                                                },
                                            },
                                            e2,
                                        ),
                                    )
                                },
                                _ => None,
                            }
                        } else {
                            Some(
                                (
                                    TokenKind::Id {
                                        class,
                                        vector,
                                        widths: WidthSpec::Single { width: w, llvm_width: None },
                                    },
                                    e1,
                                ),
                            )
                        }
                    },
                    _ => None,
                }
            }
        },
        None => {
            if is_digit_exec(c) {
                let sn = scan_number(v, 0);
                match sn.1 {
                    Some(x) => Some((TokenKind::Reference { index: x as usize }, sn.0)),
                    None => None,
                }
            } else {
                None
            }
        },
    }
}

} // verus!

verus! {

/// Scans the optional `.N` selector at `i`.
fn scan_index(v: &Vec<char>, i: usize) -> (r: Option<(Option<Modifier>, usize)>)
    requires
        i <= v.len(),
    ensures
        match parse_index(v@, i as int) {
            Some(pr) => {
                &&& r matches Some(x)
                &&& match r->Some_0.0 {
                    Some(m) => pr.0 == seq![m],
                    None => pr.0 == Seq::<Modifier>::empty(),
                }
                &&& r->Some_0.1 as int == pr.1
                &&& r->Some_0.1 <= v.len()
            },
            None => r is None,
        },
{
    if i < v.len() && v[i] == '.' {
        let sn = scan_number(v, i + 1);
        match sn.1 {
            Some(x) => {
                if sn.0 > i + 1 {
                    Some((Some(Modifier::Index(x as usize)), sn.0))
                } else {
                    None
                }
            },
            None => None,
        }
    } else {
        Some((None, i))
    }
}

/// Scans the optional `xN` forced width at `i`.
fn scan_force(v: &Vec<char>, i: usize) -> (r: Option<(Option<Modifier>, usize)>)
    requires
        i <= v.len(),
    ensures
        match parse_force(v@, i as int) {
            Some(pr) => {
                &&& r matches Some(x)
                &&& match r->Some_0.0 {
                    Some(m) => pr.0 == seq![m],
                    None => pr.0 == Seq::<Modifier>::empty(),
                }
                &&& r->Some_0.1 as int == pr.1
                &&& r->Some_0.1 <= v.len()
            },
            None => r is None,
        },
{
    if i < v.len() && v[i] == 'x' {
        let sn = scan_number(v, i + 1);
        match sn.1 {
            Some(x) => {
                if sn.0 > i + 1 {
                    Some((Some(Modifier::ForceWidth(x)), sn.0))
                } else {
                    None
                }
            },
            None => None,
        }
    } else {
        Some((None, i))
    }
}

/// Scans the run of single-character modifiers at `i`.
fn scan_mods(v: &Vec<char>, i: usize) -> (r: (Vec<Modifier>, usize))
    requires
        i <= v.len(),
    ensures
        r.1 as int == mods_end(v@, i as int),
        i <= r.1 <= v.len(),
        r.0@ == mods_seq(v@, i as int, r.1 as int),
    decreases v.len() - i,
{
    proof {
        lemma_mods_end_bounds(v@, i as int);
    }
    if i < v.len() {
        let c = v[i];
        match char_mod_exec(c) {
            Some(m) => {
                let rest = scan_mods(v, i + 1);
                let mut ms = rest.0;
                ms.insert(0, m);
                proof {
                    assert(ms@ =~= mods_seq(v@, i as int, rest.1 as int));
                }
                (ms, rest.1)
            },
            None => (Vec::new(), i),
        }
    } else {
        (Vec::new(), i)
    }
}

} // verus!

verus! {

/// Scans the trailing suffix at `i`; sub-tokens after `Pm/`, `Pc/` or `->`
/// are parsed recursively.
fn scan_suffix(s: &str, v: &Vec<char>, i: usize) -> (r: Option<Suffix>)
    requires
        v@ == s@,
        i <= v.len(),
    ensures
        match parse_suffix(v@, i as int) {
            Some(sm) => r matches Some(sf) && suffix_model(sf) == sm,
            None => r is None,
        },
    decreases s@.len(), 0int,
{
    let n = s.unicode_len();
    if i == n {
        Some(Suffix::Plain)
    } else if n >= 2 && i <= n - 2 && v[i] == 'P' && (v[i + 1] == 'm' || v[i + 1] == 'c') {
        let is_const = v[i + 1] == 'c';
        if i + 2 == n {
            Some(Suffix::Pointer { is_const, llvm_pointee: None })
        } else if v[i + 2] == '/' {
            let sub = s.substring_char(i + 3, n);
            proof {
                assert(sub@ == v@.subrange(i + 3 as int, v@.len() as int));
            }
            match parse_token(sub) {
                Ok(t) => Some(Suffix::Pointer { is_const, llvm_pointee: Some(Box::new(t)) }),
                Err(_) => None,
            }
        } else {
            None
        }
    } else if n >= 2 && i <= n - 2 && v[i] == '-' && v[i + 1] == '>' {
        let sub = s.substring_char(i + 2, n);
        proof {
            assert(sub@ == v@.subrange(i + 2 as int, v@.len() as int));
        }
        match parse_token(sub) {
            Ok(t) => Some(Suffix::Bitcast { target: Box::new(t) }),
            Err(_) => None,
        }
    } else {
        None
    }
}

/// Parses one raw spec token into its structured capture, or fails with
/// `Error::Parse` naming the token, exactly where the token does not match
/// the grammar (`spec_parse`).
pub fn parse_token(s: &str) -> (r: Result<SpecToken, Error>)
    ensures
        match spec_parse(s@) {
            Some(m) => r matches Ok(t) && token_model(t) == m,
            None => r matches Err(e) && (e matches Error::Parse { token } && token@ == s@),
        },
    decreases s@.len(), 1int,
{
    let n = s.unicode_len();
    let mut v: Vec<char> = Vec::new();
    let mut i: usize = 0;
    while i < n
        invariant
            i <= n,
            n == s@.len(),
            v@ =~= s@.subrange(0, i as int),
        decreases n - i,
    {
        v.push(s.get_char(i));
        i = i + 1;
    }
    proof {
        assert(v@ =~= s@);
    }
    let head = match scan_head(&v) {
        Some(h) => h,
        None => {
            return Err(Error::Parse { token: s.to_owned() });
        },
    };
    let idx = match scan_index(&v, head.1) {
        Some(x) => x,
        None => {
            return Err(Error::Parse { token: s.to_owned() });
        },
    };
    let mr = scan_mods(&v, idx.1);
    let fw = match scan_force(&v, mr.1) {
        Some(x) => x,
        None => {
            return Err(Error::Parse { token: s.to_owned() });
        },
    };
    let sfx = match scan_suffix(s, &v, fw.1) {
        Some(x) => x,
        None => {
            return Err(Error::Parse { token: s.to_owned() });
        },
    };
    let mut mods: Vec<Modifier> = Vec::new();
    match idx.0 {
        Some(m) => mods.push(m),
        None => (),
    }
    let mut chv = mr.0;
    mods.append(&mut chv);
    match fw.0 {
        Some(m) => mods.push(m),
        None => (),
    }
    proof {
        let sm = spec_parse(s@);
        let pi = parse_index(s@, head.1 as int)->Some_0;
        let pf = parse_force(s@, mr.1 as int)->Some_0;
        assert(mods@ =~= pi.0 + mods_seq(s@, idx.1 as int, mr.1 as int) + pf.0);
    }
    Ok(SpecToken { kind: head.0, modifiers: mods, suffix: sfx })
}

} // verus!
