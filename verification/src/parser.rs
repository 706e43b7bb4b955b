//! The monomorphization engine: for each intrinsic set, each of its
//! templates, and each platform width (which must be a positive power of
//! two), the ordered slot sequence — return type first, then the arguments —
//! is resolved left to right. Each slot enumerates against the concrete
//! types chosen so far (`previous`), and every choice branches, so one
//! template expands to the full cartesian product of its slots' expansions.
//!
//! Each fully resolved combination is stamped with the template's exposed
//! name (set prefix + template name), the platform prefix, the argument
//! count, and the resolved LLVM name, and rendered as one mapping-table
//! entry.

use vstd::prelude::*;
use vstd::slice::slice_index_get;
use vstd::slice::slice_subrange;
use vstd::string::StrSliceExecFns;
use vstd::string::StringExecFns;

use crate::render::dec_str;
use crate::render::dec_string;
use crate::render::spec_ctor_ref;
use crate::typespec::Error;
use crate::typespec::SlotOutcome;
use crate::typespec::Type;
use crate::typespec::TypeSpec;
use crate::typespec::spec_enumerate;

verus! {

/// The platform description the engine reads: its name and its ordered
/// target widths.
#[derive(Debug)]
pub struct PlatformInfo {
    pub name: String,
    pub widths: Vec<u32>,
}

/// One intrinsic template: the exposed name, the LLVM name pattern (a
/// leading `!` marks it verbatim; otherwise the set's LLVM prefix is
/// prepended to the pattern's remainder), the return slot's token list, and
/// one raw token per argument slot. `width` is carried from the
/// configuration but not consulted by the expansion loop.
#[derive(Debug)]
pub struct IntrinsicData {
    pub intrinsic: String,
    pub width: Vec<String>,
    pub llvm: String,
    pub ret: Vec<String>,
    pub args: Vec<String>,
}

/// A group of templates sharing an intrinsic-name prefix and an LLVM-name
/// prefix.
#[derive(Debug)]
pub struct IntrinsicSet {
    pub intrinsic_prefix: String,
    pub llvm_prefix: String,
    pub intrinsics: Vec<IntrinsicData>,
}

/// A whole configuration: an optional platform description and its
/// intrinsic sets.
#[derive(Debug)]
pub struct Platform {
    pub file_stem: String,
    pub platform: Option<PlatformInfo>,
    pub intrinsicset: Vec<IntrinsicSet>,
}

/// One fully resolved instantiation: the exposed name, the platform prefix,
/// the argument count, the resolved LLVM name, and the concrete types.
#[derive(Debug)]
pub struct MonomorphicIntrinsic {
    pub intrinsic_set_name: String,
    pub platform_prefix: String,
    pub len: usize,
    pub llvm_name: String,
    pub args: Vec<Type>,
    pub ret: Type,
}

/// The mathematical shape of one instantiation.
pub struct MonoModel {
    pub intrinsic_set_name: Seq<char>,
    pub platform_prefix: Seq<char>,
    pub len: nat,
    pub llvm_name: Seq<char>,
    pub args: Seq<Type>,
    pub ret: Type,
}

impl View for MonomorphicIntrinsic {
    type V = MonoModel;

    open spec fn view(&self) -> MonoModel {
        MonoModel {
            intrinsic_set_name: self.intrinsic_set_name@,
            platform_prefix: self.platform_prefix@,
            len: self.len as nat,
            llvm_name: self.llvm_name@,
            args: self.args@,
            ret: self.ret,
        }
    }
}

/// The mathematical shape of one template.
pub struct DataModel {
    pub intrinsic: Seq<char>,
    pub llvm: Seq<char>,
    pub ret: Seq<Seq<char>>,
    pub args: Seq<Seq<char>>,
}

impl View for IntrinsicData {
    type V = DataModel;

    open spec fn view(&self) -> DataModel {
        DataModel {
            intrinsic: self.intrinsic@,
            llvm: self.llvm@,
            ret: self.ret.deep_view(),
            args: self.args.deep_view(),
        }
    }
}

/// The mathematical shape of one intrinsic set.
pub struct SetModel {
    pub intrinsic_prefix: Seq<char>,
    pub llvm_prefix: Seq<char>,
    pub intrinsics: Seq<DataModel>,
}

impl View for IntrinsicSet {
    type V = SetModel;

    open spec fn view(&self) -> SetModel {
        SetModel {
            intrinsic_prefix: self.intrinsic_prefix@,
            llvm_prefix: self.llvm_prefix@,
            intrinsics: Seq::new(self.intrinsics@.len(), |i: int| self.intrinsics@[i]@),
        }
    }
}

/// The mathematical shape of a configuration: the platform prefix (empty
/// without a platform description), the width list, and the sets.
pub struct PlatformModel {
    pub platform_prefix: Seq<char>,
    pub widths: Seq<u32>,
    pub sets: Seq<SetModel>,
}

impl View for Platform {
    type V = PlatformModel;

    open spec fn view(&self) -> PlatformModel {
        PlatformModel {
            platform_prefix: match self.platform {
                Some(p) => p.name@,
                None => Seq::empty(),
            },
            widths: match self.platform {
                Some(p) => p.widths@,
                None => Seq::empty(),
            },
            sets: Seq::new(self.intrinsicset@.len(), |i: int| self.intrinsicset@[i]@),
        }
    }
}

/// A positive power of two.
pub open spec fn is_pow2(w: u32) -> bool {
    w > 0 && w & ((w - 1) as u32) == 0
}

/// The outcome of a whole expansion: the instantiations in generation order,
/// or the raw token that failed to parse, or the first failure.
pub enum MonoOutcome {
    Done(Seq<MonoModel>),
    BadToken(Seq<char>),
    Failed(Error),
}

/// The ordered slot sequence of a template: the return slot's token list
/// first, then one single-token slot per argument.
pub open spec fn slot_seq(d: DataModel) -> Seq<Seq<Seq<char>>> {
    seq![d.ret] + Seq::new(d.args.len(), |i: int| seq![d.args[i]])
}

/// An unstamped instantiation: slot 0 is the return type, the rest are the
/// arguments.
pub open spec fn mono_of(processed: Seq<Type>) -> MonoModel {
    MonoModel {
        intrinsic_set_name: Seq::empty(),
        platform_prefix: Seq::empty(),
        len: 0,
        llvm_name: Seq::empty(),
        args: processed.drop_first(),
        ret: processed[0],
    }
}

/// The stamp applied to each instantiation of a template: exposed name = set
/// prefix + template name; argument count; LLVM name resolved from the
/// pattern (verbatim after a leading `!`, otherwise the set's LLVM prefix
/// plus the pattern's remainder).
pub open spec fn spec_stamp(m: MonoModel, s: SetModel, pp: Seq<char>, d: DataModel) -> MonoModel {
    MonoModel {
        intrinsic_set_name: s.intrinsic_prefix + d.intrinsic,
        platform_prefix: pp,
        len: m.args.len(),
        llvm_name: if d.llvm.len() > 0 && d.llvm[0] == '!' {
            d.llvm.drop_first()
        } else if d.llvm.len() >= 1 {
            s.llvm_prefix + d.llvm.drop_first()
        } else {
            s.llvm_prefix
        },
        args: m.args,
        ret: m.ret,
    }
}

/// The recursive slot resolution: with no slots left, one instantiation from
/// the resolved types; otherwise the next slot enumerates against
/// `processed` and every result branches.
pub open spec fn spec_recur(width: u32, processed: Seq<Type>, untouched: Seq<Seq<Seq<char>>>) -> MonoOutcome
    decreases untouched.len(), 0int, 0int,
{
    if untouched.len() == 0 {
        MonoOutcome::Done(seq![mono_of(processed)])
    } else {
        match spec_enumerate(untouched[0], width, processed) {
            SlotOutcome::BadToken(tok) => MonoOutcome::BadToken(tok),
            SlotOutcome::Failed(e) => MonoOutcome::Failed(e),
            SlotOutcome::Types(ts) => spec_branches(ts, width, processed, untouched.drop_first()),
        }
    }
}

/// One branch of the cartesian product per enumerated type for the current
/// slot, in enumeration order.
pub open spec fn spec_branches(
    ts: Seq<Type>,
    width: u32,
    processed: Seq<Type>,
    rest: Seq<Seq<Seq<char>>>,
) -> MonoOutcome
    decreases rest.len(), 1int, ts.len(),
{
    if ts.len() == 0 {
        MonoOutcome::Done(Seq::empty())
    } else {
        match spec_recur(width, processed.push(ts[0]), rest) {
            MonoOutcome::Done(ms) => match spec_branches(ts.drop_first(), width, processed, rest) {
                MonoOutcome::Done(more) => MonoOutcome::Done(ms + more),
                other => other,
            },
            other => other,
        }
    }
}

/// One template expanded at each width in order: a width that is not a
/// positive power of two fails before any slot is enumerated; otherwise the
/// slot recursion runs and each instantiation is stamped.
pub open spec fn spec_mono_widths(widths: Seq<u32>, d: DataModel, s: SetModel, pp: Seq<char>) -> MonoOutcome
    decreases widths.len(),
{
    if widths.len() == 0 {
        MonoOutcome::Done(Seq::empty())
    } else if !is_pow2(widths[0]) {
        MonoOutcome::Failed(Error::InvalidWidth { width: widths[0] })
    } else {
        match spec_recur(widths[0], Seq::empty(), slot_seq(d)) {
            MonoOutcome::Done(ms) => match spec_mono_widths(widths.drop_first(), d, s, pp) {
                MonoOutcome::Done(more) => MonoOutcome::Done(
                    ms.map(|i: int, m: MonoModel| spec_stamp(m, s, pp, d)) + more,
                ),
                other => other,
            },
            other => other,
        }
    }
}

/// A set's templates expanded in order.
pub open spec fn spec_mono_datas(ds: Seq<DataModel>, s: SetModel, pp: Seq<char>, widths: Seq<u32>) -> MonoOutcome
    decreases ds.len(),
{
    if ds.len() == 0 {
        MonoOutcome::Done(Seq::empty())
    } else {
        match spec_mono_widths(widths, ds[0], s, pp) {
            MonoOutcome::Done(ms) => match spec_mono_datas(ds.drop_first(), s, pp, widths) {
                MonoOutcome::Done(more) => MonoOutcome::Done(ms + more),
                other => other,
            },
            other => other,
        }
    }
}

/// The sets expanded in order.
pub open spec fn spec_mono_sets(sets: Seq<SetModel>, pp: Seq<char>, widths: Seq<u32>) -> MonoOutcome
    decreases sets.len(),
{
    if sets.len() == 0 {
        MonoOutcome::Done(Seq::empty())
    } else {
        match spec_mono_datas(sets[0].intrinsics, sets[0], pp, widths) {
            MonoOutcome::Done(ms) => match spec_mono_sets(sets.drop_first(), pp, widths) {
                MonoOutcome::Done(more) => MonoOutcome::Done(ms + more),
                other => other,
            },
            other => other,
        }
    }
}

/// The whole expansion of a configuration.
pub open spec fn spec_monomorphise(p: PlatformModel) -> MonoOutcome {
    spec_mono_sets(p.sets, p.platform_prefix, p.widths)
}

/// The models of a vector of instantiations.
pub open spec fn monos_view(v: Seq<MonomorphicIntrinsic>) -> Seq<MonoModel> {
    Seq::new(v.len(), |i: int| v[i]@)
}

/// A deep copy of a resolved type list.
fn clone_types(v: &[Type]) -> (r: Vec<Type>)
    ensures
        r@ == v@,
{
    let mut out: Vec<Type> = Vec::new();
    let mut i: usize = 0;
    while i < v.len()
        invariant
            i <= v@.len(),
            out@ =~= v@.subrange(0, i as int),
        decreases v@.len() - i,
    {
        out.push(v[i].clone());
        i = i + 1;
    }
    proof {
        assert(out@ =~= v@);
    }
    out
}

} // verus!

verus! {

impl MonomorphicIntrinsic {
    /// An unstamped instantiation from a resolved slot sequence.
    pub fn from_types(ret: &Type, args: &[Type]) -> (r: MonomorphicIntrinsic)
        ensures
            r@ == (MonoModel {
                intrinsic_set_name: Seq::empty(),
                platform_prefix: Seq::empty(),
                len: 0,
                llvm_name: Seq::empty(),
                args: args@,
                ret: *ret,
            }),
    {
        MonomorphicIntrinsic {
            intrinsic_set_name: String::new(),
            platform_prefix: String::new(),
            len: 0,
            llvm_name: String::new(),
            args: clone_types(args),
            ret: ret.clone(),
        }
    }

    /// Stamps this instantiation with its template's names (`spec_stamp`).
    pub fn update(&mut self, w: u32, p: &Platform, s: &IntrinsicSet, i: &IntrinsicData)
        ensures
            final(self)@ == spec_stamp(old(self)@, s@, p@.platform_prefix, i@),
    {
        let mut name = s.intrinsic_prefix.clone();
        name.append(i.intrinsic.as_str());
        self.intrinsic_set_name = name;
        self.platform_prefix = p.platform_prefix();
        self.len = self.args.len();
        let ln = i.llvm.as_str().unicode_len();
        if ln >= 1 && i.llvm.as_str().get_char(0) == '!' {
            let rest = i.llvm.as_str().substring_char(1, ln);
            proof {
                assert(rest@ =~= i@.llvm.drop_first());
            }
            self.llvm_name = rest.to_owned();
        } else {
            let mut x = s.llvm_prefix.clone();
            if ln >= 1 {
                let rest = i.llvm.as_str().substring_char(1, ln);
                proof {
                    assert(rest@ =~= i@.llvm.drop_first());
                }
                x.append(rest);
            }
            self.llvm_name = x;
        }
    }

    /// The argument type reference expressions, joined by `,`.
    pub fn compiler_args(&self) -> (r: String)
        ensures
            r@ == spec_args_refs(self.args@),
    {
        proof {
            assert(self.args@.skip(0int) =~= self.args@);
        }
        args_refs_from(self.args.as_slice(), 0)
    }

    /// The return type reference expression.
    pub fn compiler_ret(&self) -> (r: String)
        ensures
            r@ == spec_ctor_ref(self.ret),
    {
        self.ret.compiler_ctor_ref()
    }

    /// One rendered mapping-table entry: the exposed name as the key, the
    /// argument count, the ordered argument references, the return
    /// reference, and the LLVM name as a named definition.
    pub fn render(&self) -> (r: String)
        ensures
            r@ == spec_mono_render(self@),
    {
        let mut s = String::from_str("\n        \"");
        s.append(self.intrinsic_set_name.as_str());
        s.append("\" => Intrinsic {\n            inputs: { static INPUTS: [&'static Type; ");
        let l = dec_string(self.len as u64);
        s.append(l.as_str());
        s.append("] = [");
        let a = self.compiler_args();
        s.append(a.as_str());
        s.append("]; &INPUTS },\n            output: &");
        let rt = self.compiler_ret();
        s.append(rt.as_str());
        s.append(",\n            definition: Named(\"");
        s.append(self.llvm_name.as_str());
        s.append("\")\n        }");
        s
    }
}

/// The argument references of `v[from..]`, joined by `,`.
pub open spec fn spec_args_refs(args: Seq<Type>) -> Seq<char>
    decreases args.len(),
{
    if args.len() == 0 {
        Seq::empty()
    } else if args.len() == 1 {
        spec_ctor_ref(args[0])
    } else {
        spec_ctor_ref(args[0]) + ","@ + spec_args_refs(args.drop_first())
    }
}

/// One rendered entry (`MonomorphicIntrinsic::render`).
pub open spec fn spec_mono_render(m: MonoModel) -> Seq<char> {
    "\n        \""@ + m.intrinsic_set_name
        + "\" => Intrinsic {\n            inputs: { static INPUTS: [&'static Type; "@ + dec_str(
        m.len,
    ) + "] = ["@ + spec_args_refs(m.args) + "]; &INPUTS },\n            output: &"@ + spec_ctor_ref(
        m.ret,
    ) + ",\n            definition: Named(\""@ + m.llvm_name + "\")\n        }"@
}

fn args_refs_from(v: &[Type], from: usize) -> (r: String)
    requires
        from <= v@.len(),
    ensures
        r@ == spec_args_refs(v@.skip(from as int)),
    decreases v@.len() - from,
{
    proof {
        assert(v@.skip(from as int).len() == v@.len() - from);
    }
    if from >= v.len() {
        let s = String::new();
        proof {
            assert(s@ =~= spec_args_refs(v@.skip(from as int)));
        }
        s
    } else {
        proof {
            assert(v@.skip(from as int)[0] == v@[from as int]);
            assert(v@.skip(from as int).drop_first() =~= v@.skip(from as int + 1));
        }
        let first = slice_index_get(v, from);
        let mut s = first.compiler_ctor_ref();
        if from + 1 < v.len() {
            s.append(",");
            let more = args_refs_from(v, from + 1);
            s.append(more.as_str());
        }
        s
    }
}

} // verus!

verus! {

impl Platform {
    /// The platform name prefix, empty without a platform description.
    pub fn platform_prefix(&self) -> (r: String)
        ensures
            r@ == self@.platform_prefix,
    {
        match &self.platform {
            Some(p) => p.name.clone(),
            None => String::new(),
        }
    }

    /// The ordered target widths, empty without a platform description.
    fn widths(&self) -> (r: Vec<u32>)
        ensures
            r@ == self@.widths,
    {
        match &self.platform {
            Some(p) => {
                let mut out: Vec<u32> = Vec::new();
                let mut i: usize = 0;
                while i < p.widths.len()
                    invariant
                        i <= p.widths@.len(),
                        out@ =~= p.widths@.subrange(0, i as int),
                    decreases p.widths@.len() - i,
                {
                    out.push(p.widths[i]);
                    i = i + 1;
                }
                proof {
                    assert(out@ =~= p.widths@);
                }
                out
            },
            None => Vec::new(),
        }
    }

    /// Folds another parsed configuration in: its platform description, if
    /// present, replaces this one, and its sets are appended.
    pub fn merge(&mut self, other: Platform)
        ensures
            final(self).file_stem == old(self).file_stem,
            final(self)@.sets =~= old(self)@.sets + other@.sets,
            other.platform is Some ==> final(self)@.platform_prefix == other@.platform_prefix
                && final(self)@.widths == other@.widths,
            other.platform is None ==> final(self)@.platform_prefix == old(self)@.platform_prefix
                && final(self)@.widths == old(self)@.widths,
    {
        let Platform { file_stem: _, platform: op, intrinsicset: mut osets } = other;
        match op {
            Some(p) => {
                self.platform = Some(p);
            },
            None => {},
        }
        self.intrinsicset.append(&mut osets);
        proof {
            assert(final(self)@.sets =~= old(self)@.sets + other@.sets);
        }
    }
}

/// The models of a vector of slots.
pub open spec fn slots_view(v: Seq<TypeSpec>) -> Seq<Seq<Seq<char>>> {
    Seq::new(v.len(), |i: int| v[i]@)
}

/// Resolves the slots `specs[si..]` recursively, branching on each type the
/// next slot enumerates to (`spec_recur`).
fn recur(width: u32, processed: &Vec<Type>, specs: &Vec<TypeSpec>, si: usize) -> (r: Result<
    Vec<MonomorphicIntrinsic>,
    Error,
>)
    requires
        si <= specs.len(),
        processed@.len() + (specs@.len() - si) >= 1,
    ensures
        match spec_recur(width, processed@, slots_view(specs@).skip(si as int)) {
            MonoOutcome::Done(ms) => r matches Ok(v) && monos_view(v@) == ms,
            MonoOutcome::BadToken(tok) => r matches Err(e) && (e matches Error::Parse { token }
                && token@ == tok),
            MonoOutcome::Failed(e) => r matches Err(e2) && e2 == e,
        },
    decreases specs.len() - si, 0int, 0int,
{
    proof {
        assert(slots_view(specs@).skip(si as int).len() == specs@.len() - si);
    }
    if si >= specs.len() {
        let ret = &processed[0];
        let args = slice_subrange(processed.as_slice(), 1, processed.len());
        let m = MonomorphicIntrinsic::from_types(ret, args);
        let mut out: Vec<MonomorphicIntrinsic> = Vec::new();
        out.push(m);
        proof {
            assert(args@ =~= processed@.drop_first());
            assert(monos_view(out@) =~= seq![mono_of(processed@)]);
        }
        Ok(out)
    } else {
        proof {
            assert(slots_view(specs@).skip(si as int)[0] == specs@[si as int]@);
            assert(slots_view(specs@).skip(si as int).drop_first() =~= slots_view(specs@).skip(
                si as int + 1,
            ));
        }
        let slot = &specs[si];
        match slot.enumerate(width, processed.as_slice()) {
            Err(e) => Err(e),
            Ok(choices) => {
                proof {
                    assert(choices@.skip(0int) =~= choices@);
                }
                branches(&choices, 0, width, processed, specs, si + 1)
            },
        }
    }
}

/// One branch per enumerated type for the current slot (`spec_branches`).
fn branches(
    choices: &Vec<Type>,
    ci: usize,
    width: u32,
    processed: &Vec<Type>,
    specs: &Vec<TypeSpec>,
    si: usize,
) -> (r: Result<Vec<MonomorphicIntrinsic>, Error>)
    requires
        ci <= choices.len(),
        si <= specs.len(),
    ensures
        match spec_branches(
            choices@.skip(ci as int),
            width,
            processed@,
            slots_view(specs@).skip(si as int),
        ) {
            MonoOutcome::Done(ms) => r matches Ok(v) && monos_view(v@) == ms,
            MonoOutcome::BadToken(tok) => r matches Err(e) && (e matches Error::Parse { token }
                && token@ == tok),
            MonoOutcome::Failed(e) => r matches Err(e2) && e2 == e,
        },
    decreases specs.len() - si, 1int, choices.len() - ci,
{
    proof {
        assert(choices@.skip(ci as int).len() == choices@.len() - ci);
    }
    if ci >= choices.len() {
        let out: Vec<MonomorphicIntrinsic> = Vec::new();
        proof {
            assert(monos_view(out@) =~= Seq::<MonoModel>::empty());
        }
        Ok(out)
    } else {
        proof {
            assert(choices@.skip(ci as int)[0] == choices@[ci as int]);
            assert(choices@.skip(ci as int).drop_first() =~= choices@.skip(ci as int + 1));
        }
        let mut ext = clone_types(processed.as_slice());
        ext.push(choices[ci].clone());
        proof {
            assert(ext@ =~= processed@.push(choices@[ci as int]));
        }
        match recur(width, &ext, specs, si) {
            Err(e) => Err(e),
            Ok(mut ms) => match branches(choices, ci + 1, width, processed, specs, si) {
                Err(e) => Err(e),
                Ok(mut more) => {
                    let ghost gms = monos_view(ms@);
                    let ghost gmore = monos_view(more@);
                    ms.append(&mut more);
                    proof {
                        assert(monos_view(ms@) =~= gms + gmore);
                    }
                    Ok(ms)
                },
            },
        }
    }
}

} // verus!

verus! {

/// One template expanded at each width of `widths[wi..]` (`spec_mono_widths`).
fn mono_widths_from(
    widths: &Vec<u32>,
    wi: usize,
    d: &IntrinsicData,
    s: &IntrinsicSet,
    p: &Platform,
) -> (r: Result<Vec<MonomorphicIntrinsic>, Error>)
    requires
        wi <= widths.len(),
    ensures
        match spec_mono_widths(widths@.skip(wi as int), d@, s@, p@.platform_prefix) {
            MonoOutcome::Done(ms) => r matches Ok(v) && monos_view(v@) == ms,
            MonoOutcome::BadToken(tok) => r matches Err(e) && (e matches Error::Parse { token }
                && token@ == tok),
            MonoOutcome::Failed(e) => r matches Err(e2) && e2 == e,
        },
    decreases widths.len() - wi,
{
    proof {
        assert(widths@.skip(wi as int).len() == widths@.len() - wi);
    }
    if wi >= widths.len() {
        let out: Vec<MonomorphicIntrinsic> = Vec::new();
        proof {
            assert(monos_view(out@) =~= Seq::<MonoModel>::empty());
        }
        Ok(out)
    } else {
        proof {
            assert(widths@.skip(wi as int)[0] == widths@[wi as int]);
            assert(widths@.skip(wi as int).drop_first() =~= widths@.skip(wi as int + 1));
        }
        let w = widths[wi];
        if !(w > 0 && w & (w - 1) == 0) {
            return Err(Error::InvalidWidth { width: w });
        }
        let mut slots: Vec<TypeSpec> = Vec::new();
        let rslice: &[String] = d.ret.as_slice();
        proof {
            assert(rslice.deep_view() =~= d@.ret);
        }
        slots.push(TypeSpec::from_list(rslice));
        let mut ai: usize = 0;
        while ai < d.args.len()
            invariant
                ai <= d.args@.len(),
                slots@.len() == 1 + ai,
                slots@[0]@ == d@.ret,
                forall|j: int| 0 <= j < ai ==> #[trigger] slots@[j + 1]@ == seq![d@.args[j]],
            decreases d.args@.len() - ai,
        {
            let t = TypeSpec::from_str(d.args[ai].as_str());
            slots.push(t);
            ai = ai + 1;
        }
        proof {
            assert(slots_view(slots@).skip(0int) =~= slots_view(slots@));
            assert forall|i: int| 0 <= i < slots_view(slots@).len() implies slots_view(slots@)[i]
                == slot_seq(d@)[i] by {
                if i > 0 {
                    let j = i - 1;
                    assert(slots@[j + 1]@ == seq![d@.args[j]]);
                }
            }
            assert(slots_view(slots@) =~= slot_seq(d@));
        }
        let empty: Vec<Type> = Vec::new();
        match recur(w, &empty, &slots, 0) {
            Err(e) => Err(e),
            Ok(mut ms) => {
                let ghost orig = ms@;
                let mut out: Vec<MonomorphicIntrinsic> = Vec::new();
                while ms.len() > 0
                    invariant
                        out@.len() + ms@.len() == orig.len(),
                        ms@ == orig.subrange(out@.len() as int, orig.len() as int),
                        forall|k: int|
                            0 <= k < out@.len() ==> #[trigger] out@[k]@ == spec_stamp(
                                orig[k]@,
                                s@,
                                p@.platform_prefix,
                                d@,
                            ),
                    decreases ms.len(),
                {
                    let ghost k = out@.len() as int;
                    let mut m = ms.remove(0);
                    proof {
                        assert(m == orig[k]);
                        assert(ms@ =~= orig.subrange(k + 1, orig.len() as int));
                    }
                    m.update(w, p, s, d);
                    out.push(m);
                }
                proof {
                    assert(monos_view(out@) =~= monos_view(orig).map(
                        |i: int, m: MonoModel| spec_stamp(m, s@, p@.platform_prefix, d@),
                    ));
                }
                match mono_widths_from(widths, wi + 1, d, s, p) {
                    Err(e) => Err(e),
                    Ok(mut more) => {
                        let ghost gout = monos_view(out@);
                        let ghost gmore = monos_view(more@);
                        out.append(&mut more);
                        proof {
                            assert(monos_view(out@) =~= gout + gmore);
                        }
                        Ok(out)
                    },
                }
            },
        }
    }
}

/// The models of a vector of templates.
pub open spec fn datas_view(v: Seq<IntrinsicData>) -> Seq<DataModel> {
    Seq::new(v.len(), |i: int| v[i]@)
}

/// A set's templates `ds[di..]` expanded in order (`spec_mono_datas`).
fn mono_datas_from(
    ds: &Vec<IntrinsicData>,
    di: usize,
    s: &IntrinsicSet,
    widths: &Vec<u32>,
    p: &Platform,
) -> (r: Result<Vec<MonomorphicIntrinsic>, Error>)
    requires
        di <= ds.len(),
    ensures
        match spec_mono_datas(datas_view(ds@).skip(di as int), s@, p@.platform_prefix, widths@) {
            MonoOutcome::Done(ms) => r matches Ok(v) && monos_view(v@) == ms,
            MonoOutcome::BadToken(tok) => r matches Err(e) && (e matches Error::Parse { token }
                && token@ == tok),
            MonoOutcome::Failed(e) => r matches Err(e2) && e2 == e,
        },
    decreases ds.len() - di,
{
    proof {
        assert(datas_view(ds@).skip(di as int).len() == ds@.len() - di);
    }
    if di >= ds.len() {
        let out: Vec<MonomorphicIntrinsic> = Vec::new();
        proof {
            assert(monos_view(out@) =~= Seq::<MonoModel>::empty());
        }
        Ok(out)
    } else {
        proof {
            assert(datas_view(ds@).skip(di as int)[0] == ds@[di as int]@);
            assert(datas_view(ds@).skip(di as int).drop_first() =~= datas_view(ds@).skip(
                di as int + 1,
            ));
            assert(widths@.skip(0int) =~= widths@);
        }
        match mono_widths_from(widths, 0, &ds[di], s, p) {
            Err(e) => Err(e),
            Ok(mut first) => match mono_datas_from(ds, di + 1, s, widths, p) {
                Err(e) => Err(e),
                Ok(mut more) => {
                    let ghost gf = monos_view(first@);
                    let ghost gm = monos_view(more@);
                    first.append(&mut more);
                    proof {
                        assert(monos_view(first@) =~= gf + gm);
                    }
                    Ok(first)
                },
            },
        }
    }
}

/// The sets `sets[si..]` expanded in order (`spec_mono_sets`).
fn mono_sets_from(
    sets: &Vec<IntrinsicSet>,
    si: usize,
    widths: &Vec<u32>,
    p: &Platform,
) -> (r: Result<Vec<MonomorphicIntrinsic>, Error>)
    requires
        si <= sets.len(),
    ensures
        match spec_mono_sets(
            Seq::new(sets@.len(), |i: int| sets@[i]@).skip(si as int),
            p@.platform_prefix,
            widths@,
        ) {
            MonoOutcome::Done(ms) => r matches Ok(v) && monos_view(v@) == ms,
            MonoOutcome::BadToken(tok) => r matches Err(e) && (e matches Error::Parse { token }
                && token@ == tok),
            MonoOutcome::Failed(e) => r matches Err(e2) && e2 == e,
        },
    decreases sets.len() - si,
{
    let ghost sv = Seq::new(sets@.len(), |i: int| sets@[i]@);
    proof {
        assert(sv.skip(si as int).len() == sets@.len() - si);
    }
    if si >= sets.len() {
        let out: Vec<MonomorphicIntrinsic> = Vec::new();
        proof {
            assert(monos_view(out@) =~= Seq::<MonoModel>::empty());
        }
        Ok(out)
    } else {
        proof {
            assert(sv.skip(si as int)[0] == sets@[si as int]@);
            assert(sv.skip(si as int).drop_first() =~= sv.skip(si as int + 1));
            assert(datas_view(sets@[si as int].intrinsics@).skip(0int) =~= datas_view(
                sets@[si as int].intrinsics@,
            ));
            assert(datas_view(sets@[si as int].intrinsics@) =~= sets@[si as int]@.intrinsics);
        }
        let st = &sets[si];
        match mono_datas_from(&st.intrinsics, 0, st, widths, p) {
            Err(e) => Err(e),
            Ok(mut first) => match mono_sets_from(sets, si + 1, widths, p) {
                Err(e) => Err(e),
                Ok(mut more) => {
                    let ghost gf = monos_view(first@);
                    let ghost gm = monos_view(more@);
                    first.append(&mut more);
                    proof {
                        assert(monos_view(first@) =~= gf + gm);
                    }
                    Ok(first)
                },
            },
        }
    }
}

impl Platform {
    /// The full expansion: every set, template, width, and slot choice, in
    /// generation order (`spec_monomorphise`). A platform width that is not
    /// a positive power of two fails with `InvalidWidth` before any slot of
    /// that combination is enumerated.
    pub fn monomorphise(&self) -> (r: Result<Vec<MonomorphicIntrinsic>, Error>)
        ensures
            match spec_monomorphise(self@) {
                MonoOutcome::Done(ms) => r matches Ok(v) && monos_view(v@) == ms,
                MonoOutcome::BadToken(tok) => r matches Err(e) && (e matches Error::Parse { token }
                    && token@ == tok),
                MonoOutcome::Failed(e) => r matches Err(e2) && e2 == e,
            },
    {
        let ws = self.widths();
        proof {
            assert(Seq::new(self.intrinsicset@.len(), |i: int| self.intrinsicset@[i]@).skip(0int)
                =~= self@.sets);
        }
        mono_sets_from(&self.intrinsicset, 0, &ws, self)
    }

    /// The whole rendered lookup table: every instantiation's entry,
    /// concatenated in generation order.
    pub fn generate(&self) -> (r: Result<String, Error>)
        ensures
            match spec_monomorphise(self@) {
                MonoOutcome::Done(ms) => r matches Ok(s) && s@ == spec_renders(ms),
                MonoOutcome::BadToken(tok) => r matches Err(e) && (e matches Error::Parse { token }
                    && token@ == tok),
                MonoOutcome::Failed(e) => r matches Err(e2) && e2 == e,
            },
    {
        match self.monomorphise() {
            Err(e) => Err(e),
            Ok(ms) => {
                proof {
                    assert(monos_view(ms@).skip(0int) =~= monos_view(ms@));
                }
                Ok(renders_from(&ms, 0))
            },
        }
    }
}

/// The rendered entries of a sequence of instantiations, concatenated.
pub open spec fn spec_renders(ms: Seq<MonoModel>) -> Seq<char>
    decreases ms.len(),
{
    if ms.len() == 0 {
        Seq::empty()
    } else {
        spec_mono_render(ms[0]) + spec_renders(ms.drop_first())
    }
}

fn renders_from(v: &Vec<MonomorphicIntrinsic>, from: usize) -> (r: String)
    requires
        from <= v.len(),
    ensures
        r@ == spec_renders(monos_view(v@).skip(from as int)),
    decreases v.len() - from,
{
    proof {
        assert(monos_view(v@).skip(from as int).len() == v@.len() - from);
    }
    if from >= v.len() {
        let s = String::new();
        proof {
            assert(s@ =~= spec_renders(monos_view(v@).skip(from as int)));
        }
        s
    } else {
        proof {
            assert(monos_view(v@).skip(from as int)[0] == v@[from as int]@);
            assert(monos_view(v@).skip(from as int).drop_first() =~= monos_view(v@).skip(
                from as int + 1,
            ));
        }
        let mut s = v[from].render();
        let more = renders_from(v, from + 1);
        s.append(more.as_str());
        s
    }
}

/// A vector type name: the kind letter, the scalar width, and the lane
/// count, rendered as `::i32x4`.
#[derive(Debug)]
pub struct TypeVec(pub char, pub u32, pub u32);

impl TypeVec {
    /// The rendered name `::{kind}{width}x{lanes}`.
    pub fn render(&self) -> (r: String)
        ensures
            r@ == "::"@ + seq![self.0] + dec_str(self.1 as nat) + "x"@ + dec_str(self.2 as nat),
    {
        let mut s = String::from_str("::");
        crate::render::push_char(&mut s, self.0);
        let a = dec_string(self.1 as u64);
        s.append(a.as_str());
        s.append("x");
        let b = dec_string(self.2 as u64);
        s.append(b.as_str());
        proof {
            assert(s@ =~= "::"@ + seq![self.0] + dec_str(self.1 as nat) + "x"@ + dec_str(
                self.2 as nat,
            ));
        }
        s
    }
}

} // verus!
