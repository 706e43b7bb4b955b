//! Laws of the type algebra and the slot enumerator, stated over the spec
//! model and proved once for all inputs.

use vstd::prelude::*;

use crate::parser::is_pow2;
use crate::token::NumClass;
use crate::token::SuffixModel;
use crate::token::TokenKind;
use crate::token::TokenModel;
use crate::token::WidthSpec;
use crate::token::class_kinds;
use crate::typespec::Modifier;
use crate::typespec::NumKind;
use crate::typespec::Number;
use crate::typespec::Type;
use crate::typespec::spec_apply_mods;
use crate::typespec::spec_apply_suffix;
use crate::typespec::spec_enum_kinds;
use crate::typespec::spec_enum_token;
use crate::typespec::spec_enum_widths;
use crate::typespec::spec_modify;
use crate::typespec::widths_from;

verus! {

/// The one concrete type a plain (modifier-free, suffix-free) id token
/// denotes for a given kind at a given token width.
pub open spec fn plain_id_type(kind: NumKind, d: u32, vector: bool, pw: u32) -> Type {
    if vector {
        Type::Vector {
            elem: Box::new(Type::Num(Number { kind, bitwidth: d, llvm_bitwidth: None })),
            length: (pw / d) as u32,
            bitcast: None,
        }
    } else {
        Type::Num(Number { kind, bitwidth: d, llvm_bitwidth: None })
    }
}

proof fn lemma_enum_kinds_plain(
    bw: u32,
    kinds: Seq<NumKind>,
    vector: bool,
    pw: u32,
    prev: Seq<Type>,
)
    requires
        bw > 0,
    ensures
        ({
            let r = spec_enum_kinds(
                bw,
                kinds,
                vector,
                None,
                Seq::empty(),
                SuffixModel::Plain,
                pw,
                prev,
            );
            &&& r is Ok
            &&& r->Ok_0.len() == kinds.len()
            &&& forall|j: int|
                0 <= j < kinds.len() ==> r->Ok_0[j] == plain_id_type(kinds[j], bw, vector, pw)
        }),
    decreases kinds.len(),
{
    if kinds.len() == 0 {
    } else {
        let scalar = Number { kind: kinds[0], bitwidth: bw, llvm_bitwidth: None };
        let base = if vector {
            Type::Vector {
                elem: Box::new(Type::Num(scalar)),
                length: (pw / bw) as u32,
                bitcast: None,
            }
        } else {
            Type::Num(scalar)
        };
        assert(spec_apply_mods(base, Seq::empty(), pw) == Ok::<Type, crate::typespec::Error>(base));
        assert(spec_apply_suffix(base, SuffixModel::Plain, pw, prev) == Ok::<
            Type,
            crate::typespec::Error,
        >(base));
        lemma_enum_kinds_plain(bw, kinds.drop_first(), vector, pw, prev);
        let rest = spec_enum_kinds(
            bw,
            kinds.drop_first(),
            vector,
            None,
            Seq::empty(),
            SuffixModel::Plain,
            pw,
            prev,
        );
        assert(base == plain_id_type(kinds[0], bw, vector, pw));
        assert forall|j: int|
            0 <= j < kinds.len() implies (seq![base] + rest->Ok_0)[j] == plain_id_type(
            kinds[j],
            bw,
            vector,
            pw,
        ) by {
            if j > 0 {
                assert((seq![base] + rest->Ok_0)[j] == rest->Ok_0[j - 1]);
                assert(kinds.drop_first()[j - 1] == kinds[j]);
            }
        }
    }
}

/// Law: at any positive power-of-two platform width, a single-width id token
/// with no modifiers and no suffix enumerates to exactly one result per kind
/// in its class — a scalar of the token's width, wrapped for a lowercase
/// class in a vector of `platform_width / token_width` lanes.
pub proof fn lemma_single_width_enumeration(
    class: NumClass,
    vector: bool,
    d: u32,
    pw: u32,
    prev: Seq<Type>,
)
    requires
        is_pow2(pw),
        d > 0,
    ensures
        ({
            let m = TokenModel {
                kind: TokenKind::Id {
                    class,
                    vector,
                    widths: WidthSpec::Single { width: d, llvm_width: None },
                },
                modifiers: Seq::empty(),
                suffix: SuffixModel::Plain,
            };
            let r = spec_enum_token(m, pw, prev);
            &&& r is Ok
            &&& r->Ok_0.len() == class_kinds(class).len()
            &&& forall|j: int|
                0 <= j < class_kinds(class).len() ==> r->Ok_0[j] == plain_id_type(
                    class_kinds(class)[j],
                    d,
                    vector,
                    pw,
                )
        }),
{
    let m = TokenModel {
        kind: TokenKind::Id {
            class,
            vector,
            widths: WidthSpec::Single { width: d, llvm_width: None },
        },
        modifiers: Seq::empty(),
        suffix: SuffixModel::Plain,
    };
    lemma_enum_kinds_plain(d, class_kinds(class), vector, pw, prev);
    let first = spec_enum_kinds(
        d,
        class_kinds(class),
        vector,
        None,
        Seq::empty(),
        SuffixModel::Plain,
        pw,
        prev,
    );
    assert(seq![d].drop_first() =~= Seq::<u32>::empty());
    assert(spec_enum_widths(
        seq![d].drop_first(),
        class_kinds(class),
        vector,
        None,
        Seq::empty(),
        SuffixModel::Plain,
        pw,
        prev,
    ) == Ok::<Seq<Type>, crate::typespec::Error>(Seq::<Type>::empty()));
    assert(first->Ok_0 + Seq::<Type>::empty() =~= first->Ok_0);
}

/// Law: a bare back-reference token (no modifiers, no suffix) enumerates to
/// exactly the already-resolved type it names — identity via back-reference.
pub proof fn lemma_reference_identity(k: usize, pw: u32, prev: Seq<Type>)
    requires
        (k as int) < prev.len(),
    ensures
        spec_enum_token(
            TokenModel {
                kind: TokenKind::Reference { index: k },
                modifiers: Seq::empty(),
                suffix: SuffixModel::Plain,
            },
            pw,
            prev,
        ) == Ok::<Seq<Type>, crate::typespec::Error>(seq![prev[k as int]]),
{
    assert(spec_apply_mods(prev[k as int], Seq::empty(), pw) == Ok::<
        Type,
        crate::typespec::Error,
    >(prev[k as int]));
}

/// Law: a back-reference token with a bare pointer suffix enumerates to
/// exactly the referenced type wrapped in a pointer whose constness the
/// suffix chose.
pub proof fn lemma_reference_pointer(k: usize, is_const: bool, pw: u32, prev: Seq<Type>)
    requires
        (k as int) < prev.len(),
    ensures
        spec_enum_token(
            TokenModel {
                kind: TokenKind::Reference { index: k },
                modifiers: Seq::empty(),
                suffix: SuffixModel::Pointer { is_const, llvm_pointee: None },
            },
            pw,
            prev,
        ) == Ok::<Seq<Type>, crate::typespec::Error>(
            seq![
                Type::Pointer {
                    elem: Box::new(prev[k as int]),
                    llvm_elem: None,
                    is_const,
                },
            ],
        ),
{
    assert(spec_apply_mods(prev[k as int], Seq::empty(), pw) == Ok::<
        Type,
        crate::typespec::Error,
    >(prev[k as int]));
}

/// Law: widening then narrowing a number round-trips its bit width and keeps
/// its kind (the narrow LLVM width is cleared, as every kind or width change
/// clears it).
pub proof fn lemma_widen_narrow_roundtrip(n: Number, pw: u32)
    requires
        n.bitwidth <= u32::MAX / 2,
    ensures
        ({
            let w = spec_modify(Type::Num(n), Modifier::Widen, pw);
            &&& w is Ok
            &&& spec_modify(w->Ok_0, Modifier::Narrow, pw) == Ok::<
                Type,
                crate::typespec::Error,
            >(Type::Num(Number { kind: n.kind, bitwidth: n.bitwidth, llvm_bitwidth: None }))
        }),
{
}

} // verus!

verus! {

/// The plain expansion of a width progression: for each width in order, one
/// result per kind in order.
pub open spec fn plain_expansion(bws: Seq<u32>, kinds: Seq<NumKind>, vector: bool, pw: u32) -> Seq<
    Type,
>
    decreases bws.len(),
{
    if bws.len() == 0 {
        Seq::empty()
    } else {
        Seq::new(kinds.len(), |j: int| plain_id_type(kinds[j], bws[0], vector, pw))
            + plain_expansion(bws.drop_first(), kinds, vector, pw)
    }
}

proof fn lemma_widths_from_pos(start: int, end: int)
    ensures
        forall|i: int| 0 <= i < widths_from(start, end).len() ==> #[trigger] widths_from(
            start,
            end,
        )[i] >= start,
    decreases end - start,
{
    if start < 1 || start > end || end > u32::MAX as int {
    } else if 2 * start > end {
    } else {
        lemma_widths_from_pos(2 * start, end);
        assert forall|i: int| 0 <= i < widths_from(start, end).len() implies #[trigger] widths_from(
            start,
            end,
        )[i] >= start by {
            if i > 0 {
                assert(widths_from(start, end)[i] == widths_from(2 * start, end)[i - 1]);
            }
        }
    }
}

proof fn lemma_enum_widths_plain(
    bws: Seq<u32>,
    kinds: Seq<NumKind>,
    vector: bool,
    pw: u32,
    prev: Seq<Type>,
)
    requires
        forall|i: int| 0 <= i < bws.len() ==> #[trigger] bws[i] > 0,
    ensures
        spec_enum_widths(bws, kinds, vector, None, Seq::empty(), SuffixModel::Plain, pw, prev)
            == Ok::<Seq<Type>, crate::typespec::Error>(plain_expansion(bws, kinds, vector, pw)),
    decreases bws.len(),
{
    if bws.len() == 0 {
        assert(plain_expansion(bws, kinds, vector, pw) =~= Seq::<Type>::empty());
    } else {
        lemma_enum_kinds_plain(bws[0], kinds, vector, pw, prev);
        let first = spec_enum_kinds(
            bws[0],
            kinds,
            vector,
            None,
            Seq::empty(),
            SuffixModel::Plain,
            pw,
            prev,
        );
        assert(first->Ok_0 =~= Seq::new(
            kinds.len(),
            |j: int| plain_id_type(kinds[j], bws[0], vector, pw),
        ));
        lemma_enum_widths_plain(bws.drop_first(), kinds, vector, pw, prev);
    }
}

/// Law: a ranged id token with no modifiers and no suffix enumerates to
/// exactly its inclusive doubling width progression crossed with its class's
/// kind set, width-major, each entry the plain scalar (or initially
/// vectorized) type of that width and kind.
pub proof fn lemma_range_enumeration(
    class: NumClass,
    vector: bool,
    start: u32,
    end: u32,
    pw: u32,
    prev: Seq<Type>,
)
    requires
        is_pow2(pw),
        start > 0,
    ensures
        spec_enum_token(
            TokenModel {
                kind: TokenKind::Id { class, vector, widths: WidthSpec::Range { start, end } },
                modifiers: Seq::empty(),
                suffix: SuffixModel::Plain,
            },
            pw,
            prev,
        ) == Ok::<Seq<Type>, crate::typespec::Error>(
            plain_expansion(widths_from(start as int, end as int), class_kinds(class), vector, pw),
        ),
{
    lemma_widths_from_pos(start as int, end as int);
    lemma_enum_widths_plain(
        widths_from(start as int, end as int),
        class_kinds(class),
        vector,
        pw,
        prev,
    );
}

/// Law: a platform width that is not a positive power of two makes the whole
/// expansion fail with `InvalidWidth` — checked before any slot of that
/// combination is enumerated, so a first bad width fails the first template
/// outright.
pub proof fn lemma_invalid_width_fails(p: crate::parser::PlatformModel)
    requires
        p.sets.len() >= 1,
        p.sets[0].intrinsics.len() >= 1,
        p.widths.len() >= 1,
        !is_pow2(p.widths[0]),
    ensures
        crate::parser::spec_monomorphise(p) == crate::parser::MonoOutcome::Failed(
            crate::typespec::Error::InvalidWidth { width: p.widths[0] },
        ),
{
}

} // verus!

