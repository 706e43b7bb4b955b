//! Canonical rendering: each `Type` has an external-name form (`rust_name`),
//! a reference-expression form (`compiler_ctor_ref`), and a constructor form
//! (`compiler_ctor`); compound types render as a named constant definition
//! plus a reference to it, so repeated identical shapes are textually defined
//! once.

use vstd::prelude::*;
use vstd::string::StrSliceExecFns;
use vstd::string::StringExecFns;

use crate::typespec::NumKind;
use crate::typespec::Number;
use crate::typespec::Type;
use crate::typespec::TypeList;
use crate::typespec::tl_len;

verus! {

/// Relies on `String::push`: appends exactly the given character.
#[verifier::external_body]
pub(crate) fn push_char(s: &mut String, c: char)
    ensures
        final(s)@ == old(s)@.push(c),
{
    s.push(c);
}

/// The decimal digit characters.
pub open spec fn digit_char(d: nat) -> char {
    if d == 0 {
        '0'
    } else if d == 1 {
        '1'
    } else if d == 2 {
        '2'
    } else if d == 3 {
        '3'
    } else if d == 4 {
        '4'
    } else if d == 5 {
        '5'
    } else if d == 6 {
        '6'
    } else if d == 7 {
        '7'
    } else if d == 8 {
        '8'
    } else {
        '9'
    }
}

/// The decimal rendering of a number, most significant digit first.
pub open spec fn dec_str(v: nat) -> Seq<char>
    decreases v,
{
    if v < 10 {
        seq![digit_char(v)]
    } else {
        dec_str(v / 10) + seq![digit_char(v % 10)]
    }
}

/// `true` / `false`.
pub open spec fn bool_str(b: bool) -> Seq<char> {
    if b {
        "true"@
    } else {
        "false"@
    }
}

/// The text with every `::` pair removed, left to right.
pub open spec fn strip_colons(s: Seq<char>) -> Seq<char>
    decreases s.len(),
{
    if s.len() >= 2 && s[0] == ':' && s[1] == ':' {
        strip_colons(s.skip(2))
    } else if s.len() >= 1 {
        seq![s[0]] + strip_colons(s.skip(1))
    } else {
        Seq::empty()
    }
}

fn digit_string(d: u64) -> (r: String)
    requires
        d < 10,
    ensures
        r@ == seq![digit_char(d as nat)],
{
    proof {
        reveal_strlit("0");
        reveal_strlit("1");
        reveal_strlit("2");
        reveal_strlit("3");
        reveal_strlit("4");
        reveal_strlit("5");
        reveal_strlit("6");
        reveal_strlit("7");
        reveal_strlit("8");
        reveal_strlit("9");
    }
    let r = match d {
        0 => String::from_str("0"),
        1 => String::from_str("1"),
        2 => String::from_str("2"),
        3 => String::from_str("3"),
        4 => String::from_str("4"),
        5 => String::from_str("5"),
        6 => String::from_str("6"),
        7 => String::from_str("7"),
        8 => String::from_str("8"),
        _ => String::from_str("9"),
    };
    proof {
        assert(r@ =~= seq![digit_char(d as nat)]);
    }
    r
}

/// The decimal rendering of `v`.
pub fn dec_string(v: u64) -> (r: String)
    ensures
        r@ == dec_str(v as nat),
    decreases v,
{
    if v < 10 {
        digit_string(v)
    } else {
        let mut s = dec_string(v / 10);
        let d = digit_string(v % 10);
        s.append(d.as_str());
        s
    }
}

fn bool_string(b: bool) -> (r: String)
    ensures
        r@ == bool_str(b),
{
    if b {
        String::from_str("true")
    } else {
        String::from_str("false")
    }
}

/// The text with every `::` pair removed.
fn strip_colons_exec(s: &String) -> (r: String)
    ensures
        r@ == strip_colons(s@),
{
    let st: &str = s.as_str();
    let n = st.unicode_len();
    let mut out = String::new();
    let mut i: usize = 0;
    proof {
        assert(s@.skip(0int) =~= s@);
        assert(out@ + strip_colons(s@.skip(0int)) =~= strip_colons(s@));
    }
    while i < n
        invariant
            i <= n,
            n == st@.len(),
            st@ == s@,
            out@ + strip_colons(s@.skip(i as int)) == strip_colons(s@),
        decreases n - i,
    {
        let c = st.get_char(i);
        proof {
            assert(s@.skip(i as int)[0] == s@[i as int]);
            if i + 1 < n {
                assert(s@.skip(i as int)[1] == s@[i as int + 1]);
            }
            assert(s@.skip(i as int).skip(1) =~= s@.skip(i as int + 1));
            if i + 2 <= n {
                assert(s@.skip(i as int).skip(2) =~= s@.skip(i as int + 2));
            }
        }
        if c == ':' && i + 1 < n && st.get_char(i + 1) == ':' {
            i = i + 2;
        } else {
            push_char(&mut out, c);
            proof {
                assert(out@ + strip_colons(s@.skip(i as int + 1)) =~= (out@.drop_last()
                    + (seq![s@[i as int]] + strip_colons(s@.skip(i as int + 1)))));
            }
            i = i + 1;
        }
    }
    proof {
        assert(strip_colons(s@.skip(n as int)) =~= Seq::<char>::empty());
        assert(out@ =~= out@ + strip_colons(s@.skip(n as int)));
    }
    out
}

/// The constructor form of a scalar number: `::I32`, `::U8`, `::F64`, or
/// `::I64_32` where a narrow LLVM width is present (floats carry none).
pub open spec fn spec_num_ctor(n: Number) -> Seq<char> {
    match n.kind {
        NumKind::Signed => match n.llvm_bitwidth {
            Some(lw) => "::I"@ + dec_str(n.bitwidth as nat) + "_"@ + dec_str(lw as nat),
            None => "::I"@ + dec_str(n.bitwidth as nat),
        },
        NumKind::Unsigned => match n.llvm_bitwidth {
            Some(lw) => "::U"@ + dec_str(n.bitwidth as nat) + "_"@ + dec_str(lw as nat),
            None => "::U"@ + dec_str(n.bitwidth as nat),
        },
        NumKind::Float => "::F"@ + dec_str(n.bitwidth as nat),
    }
}

/// The external name of a scalar number: `i32`, `u8`, `f64`.
pub open spec fn spec_num_rust_name(n: Number) -> Seq<char> {
    match n.kind {
        NumKind::Signed => "i"@ + dec_str(n.bitwidth as nat),
        NumKind::Unsigned => "u"@ + dec_str(n.bitwidth as nat),
        NumKind::Float => "f"@ + dec_str(n.bitwidth as nat),
    }
}

impl Number {
    /// The constructor form of this number (`spec_num_ctor`).
    pub fn compiler_ctor(&self) -> (r: String)
        ensures
            r@ == spec_num_ctor(*self),
    {
        let mut s = match self.kind {
            NumKind::Signed => String::from_str("::I"),
            NumKind::Unsigned => String::from_str("::U"),
            NumKind::Float => String::from_str("::F"),
        };
        let bw = dec_string(self.bitwidth as u64);
        s.append(bw.as_str());
        match self.kind {
            NumKind::Float => s,
            _ => match self.llvm_bitwidth {
                Some(lw) => {
                    s.append("_");
                    let lws = dec_string(lw as u64);
                    s.append(lws.as_str());
                    s
                },
                None => s,
            },
        }
    }

    /// The external name of this number (`spec_num_rust_name`).
    pub fn rust_name(&self) -> (r: String)
        ensures
            r@ == spec_num_rust_name(*self),
    {
        let mut s = match self.kind {
            NumKind::Signed => String::from_str("i"),
            NumKind::Unsigned => String::from_str("u"),
            NumKind::Float => String::from_str("f"),
        };
        let bw = dec_string(self.bitwidth as u64);
        s.append(bw.as_str());
        s
    }
}

/// An aggregate's child count, saturated at the machine limit (the rendered
/// count of an in-memory value never reaches it).
pub open spec fn tl_count_sat(l: TypeList) -> nat {
    if tl_len(l) > usize::MAX as nat {
        usize::MAX as nat
    } else {
        tl_len(l)
    }
}

fn tl_count(l: &TypeList) -> (r: usize)
    ensures
        r as nat == tl_count_sat(*l),
    decreases l,
{
    match l {
        TypeList::Empty => 0,
        TypeList::Item { first, rest } => {
            let n = tl_count(&**rest);
            if n == usize::MAX {
                n
            } else {
                n + 1
            }
        },
    }
}

/// The constructor form of a type (`Type::compiler_ctor`).
pub open spec fn spec_ctor(t: Type) -> Seq<char>
    decreases t, 0int,
{
    match t {
        Type::Void => "::VOID"@,
        Type::Num(n) => spec_num_ctor(n),
        Type::Pointer { elem, llvm_elem, is_const } => "Type::Pointer("@ + spec_ctor_ref(*elem)
            + ", "@ + (match llvm_elem {
            Some(le) => "Some("@ + spec_ctor_ref(*le) + ")"@,
            None => "None"@,
        }) + ", "@ + bool_str(is_const) + ")"@,
        Type::Vector { elem, length, bitcast } => match bitcast {
            Some(bc) => spec_ctor(*elem) + "x"@ + dec_str(length as nat) + "_"@ + strip_colons(
                spec_ctor(*bc),
            ),
            None => spec_ctor(*elem) + "x"@ + dec_str(length as nat),
        },
        Type::Aggregate { flatten, elems } => "Type::Aggregate("@ + bool_str(flatten)
            + ", { static PARTS: [&'static Type; "@ + dec_str(tl_count_sat(elems)) + "] = ["@
            + spec_ctor_refs(elems) + "]; &PARTS })"@,
    }
}

/// The reference-expression form: compound types hoist a named constant,
/// scalars and vectors are referenced inline.
pub open spec fn spec_ctor_ref(t: Type) -> Seq<char>
    decreases t, 1int,
{
    match t {
        Type::Pointer { .. } => "{ static PTR: Type = "@ + spec_ctor(t) + "; &PTR }"@,
        Type::Aggregate { .. } => "{ static AGG: Type = "@ + spec_ctor(t) + "; &AGG }"@,
        _ => "&"@ + spec_ctor(t),
    }
}

/// The reference expressions of an aggregate's children, joined by `, `.
pub open spec fn spec_ctor_refs(l: TypeList) -> Seq<char>
    decreases l, 1int,
{
    match l {
        TypeList::Empty => Seq::empty(),
        TypeList::Item { first, rest } => match *rest {
            TypeList::Empty => spec_ctor_ref(*first),
            _ => spec_ctor_ref(*first) + ", "@ + spec_ctor_refs(*rest),
        },
    }
}

/// The external name of a type (`Type::rust_name`).
pub open spec fn spec_rust_name(t: Type) -> Seq<char>
    decreases t, 0int,
{
    match t {
        Type::Void => "()"@,
        Type::Num(n) => spec_num_rust_name(n),
        Type::Pointer { elem, llvm_elem, is_const } => "*"@ + (if is_const {
            "const"@
        } else {
            "mut"@
        }) + " "@ + spec_rust_name(*elem),
        Type::Vector { elem, length, bitcast } => spec_rust_name(*elem) + "x"@ + dec_str(
            length as nat,
        ),
        Type::Aggregate { flatten, elems } => "("@ + spec_rust_names(elems) + ")"@,
    }
}

/// The external names of an aggregate's children, joined by `, `.
pub open spec fn spec_rust_names(l: TypeList) -> Seq<char>
    decreases l, 1int,
{
    match l {
        TypeList::Empty => Seq::empty(),
        TypeList::Item { first, rest } => match *rest {
            TypeList::Empty => spec_rust_name(*first),
            _ => spec_rust_name(*first) + ", "@ + spec_rust_names(*rest),
        },
    }
}

impl Type {
    /// The constructor form of this type (`spec_ctor`).
    pub fn compiler_ctor(&self) -> (r: String)
        ensures
            r@ == spec_ctor(*self),
        decreases self, 2int,
    {
        match self {
            Type::Void => String::from_str("::VOID"),
            Type::Num(n) => n.compiler_ctor(),
            Type::Pointer { elem, llvm_elem, is_const } => {
                let mut s = String::from_str("Type::Pointer(");
                let er = elem.compiler_ctor_ref();
                s.append(er.as_str());
                s.append(", ");
                match llvm_elem {
                    Some(le) => {
                        s.append("Some(");
                        let ler = le.compiler_ctor_ref();
                        s.append(ler.as_str());
                        s.append(")");
                    },
                    None => {
                        s.append("None");
                    },
                }
                s.append(", ");
                let b = bool_string(*is_const);
                s.append(b.as_str());
                s.append(")");
                s
            },
            Type::Vector { elem, length, bitcast } => {
                let mut s = elem.compiler_ctor();
                s.append("x");
                let l = dec_string(*length as u64);
                s.append(l.as_str());
                match bitcast {
                    Some(bc) => {
                        s.append("_");
                        let bcs = bc.compiler_ctor();
                        let st = strip_colons_exec(&bcs);
                        s.append(st.as_str());
                    },
                    None => {},
                }
                s
            },
            Type::Aggregate { flatten, elems } => {
                let mut s = String::from_str("Type::Aggregate(");
                let b = bool_string(*flatten);
                s.append(b.as_str());
                s.append(", { static PARTS: [&'static Type; ");
                let n = dec_string(tl_count(elems) as u64);
                s.append(n.as_str());
                s.append("] = [");
                let parts = ctor_refs_list(elems);
                s.append(parts.as_str());
                s.append("]; &PARTS })");
                s
            },
        }
    }

    /// The reference-expression form of this type (`spec_ctor_ref`).
    pub fn compiler_ctor_ref(&self) -> (r: String)
        ensures
            r@ == spec_ctor_ref(*self),
        decreases self, 3int,
    {
        match self {
            Type::Pointer { .. } => {
                let mut s = String::from_str("{ static PTR: Type = ");
                let c = self.compiler_ctor();
                s.append(c.as_str());
                s.append("; &PTR }");
                s
            },
            Type::Aggregate { .. } => {
                let mut s = String::from_str("{ static AGG: Type = ");
                let c = self.compiler_ctor();
                s.append(c.as_str());
                s.append("; &AGG }");
                s
            },
            _ => {
                let mut s = String::from_str("&");
                let c = self.compiler_ctor();
                s.append(c.as_str());
                s
            },
        }
    }

    /// The external name of this type (`spec_rust_name`).
    pub fn rust_name(&self) -> (r: String)
        ensures
            r@ == spec_rust_name(*self),
        decreases self, 2int,
    {
        match self {
            Type::Void => String::from_str("()"),
            Type::Num(n) => n.rust_name(),
            Type::Pointer { elem, llvm_elem, is_const } => {
                let mut s = String::from_str("*");
                if *is_const {
                    s.append("const");
                } else {
                    s.append("mut");
                }
                s.append(" ");
                let e = elem.rust_name();
                s.append(e.as_str());
                s
            },
            Type::Vector { elem, length, bitcast } => {
                let mut s = elem.rust_name();
                s.append("x");
                let l = dec_string(*length as u64);
                s.append(l.as_str());
                s
            },
            Type::Aggregate { flatten, elems } => {
                let mut s = String::from_str("(");
                let inner = rust_names_list(elems);
                s.append(inner.as_str());
                s.append(")");
                s
            },
        }
    }
}

/// The joined reference expressions of an aggregate's children.
fn ctor_refs_list(l: &TypeList) -> (r: String)
    ensures
        r@ == spec_ctor_refs(*l),
    decreases l, 4int,
{
    match l {
        TypeList::Empty => String::new(),
        TypeList::Item { first, rest } => {
            let mut s = first.compiler_ctor_ref();
            match &**rest {
                TypeList::Empty => s,
                _ => {
                    s.append(", ");
                    let more = ctor_refs_list(&**rest);
                    s.append(more.as_str());
                    s
                },
            }
        },
    }
}

/// The joined external names of an aggregate's children.
fn rust_names_list(l: &TypeList) -> (r: String)
    ensures
        r@ == spec_rust_names(*l),
    decreases l, 4int,
{
    match l {
        TypeList::Empty => String::new(),
        TypeList::Item { first, rest } => {
            let mut s = first.rust_name();
            match &**rest {
                TypeList::Empty => s,
                _ => {
                    s.append(", ");
                    let more = rust_names_list(&**rest);
                    s.append(more.as_str());
                    s
                },
            }
        },
    }
}

} // verus!

verus! {

/// Platform-specific naming metadata for one concrete type: an LLVM-level
/// name, named properties, and positional elements. The computation that
/// derives it from platform configuration is out of scope; callers build the
/// values.
#[derive(Debug)]
pub struct PlatformTypeInfo {
    pub llvm_name: String,
    pub properties: Vec<(String, String)>,
    pub elems: Vec<String>,
}

impl PlatformTypeInfo {
    /// The pointer form of this metadata: `p0` plus the pointee's LLVM name
    /// (an explicit LLVM-visible pointee takes precedence); the properties
    /// carry over and the positional elements are dropped.
    pub fn pointer(self, llvm_elem: Option<&PlatformTypeInfo>) -> (r: PlatformTypeInfo)
        ensures
            r.llvm_name@ == "p0"@ + (match llvm_elem {
                Some(p) => p.llvm_name@,
                None => self.llvm_name@,
            }),
            r.properties == self.properties,
            r.elems@.len() == 0,
    {
        let name: String = match llvm_elem {
            Some(p) => p.llvm_name.clone(),
            None => self.llvm_name,
        };
        let mut s = String::from_str("p0");
        s.append(name.as_str());
        PlatformTypeInfo { llvm_name: s, properties: self.properties, elems: Vec::new() }
    }
}

} // verus!
