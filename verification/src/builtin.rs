//! The names of the types the standard library `Std` declares and the compiler relies on: the
//! function arrow, tuples, arrays, function pointers, `IO` and the machine scalars.
use crate::ast::name::{FullName, NameSpace};
use crate::ast::types::{tycon, tycon_key, type_tycon, TyCon, TypeNode};
use crate::constants::{spec_std_name, std_name};
use crate::strutil::{
    all_digits, digits_value, lemma_nat_text_digits, nat_text, parse_u32, starts_with,
    str_chars, string_from_chars, u64_text,
};
use std::sync::Arc;
use vstd::prelude::*;

verus! {

/// The key of the type named `name` in `Std`.
pub open spec fn std_key(name: Seq<char>) -> (Seq<Seq<char>>, Seq<char>) {
    (seq![spec_std_name()], name)
}

/// The name of the function type constructor.
pub open spec fn arrow_name() -> Seq<char> {
    seq!['-', '>']
}

/// The name tuples of `n` elements are declared under begins with this.
pub open spec fn tuple_prefix() -> Seq<char> {
    seq!['T', 'u', 'p', 'l', 'e']
}

/// The name function pointers of `n` arguments are declared under begins with this.
pub open spec fn funptr_prefix() -> Seq<char> {
    seq!['#', 'F', 'u', 'n', 'P', 't', 'r']
}

/// The number written after `prefix` in `name`, where `name` is `prefix` followed by digits
/// writing a number that fits in a `u32`.
pub open spec fn numbered(name: Seq<char>, prefix: Seq<char>) -> Option<nat> {
    if starts_with(name, prefix) && all_digits(name.skip(prefix.len() as int)) && digits_value(
        name.skip(prefix.len() as int),
    ) <= u32::MAX {
        Some(digits_value(name.skip(prefix.len() as int)))
    } else {
        None
    }
}

/// The number of elements of the tuple type the key names, where it names one.
pub open spec fn tuple_n(key: (Seq<Seq<char>>, Seq<char>)) -> Option<nat> {
    if key.0 == seq![spec_std_name()] {
        numbered(key.1, tuple_prefix())
    } else {
        None
    }
}

/// The number of arguments of the function pointer type the key names, where it names one.
pub open spec fn funptr_n(key: (Seq<Seq<char>>, Seq<char>)) -> Option<nat> {
    if key.0 == seq![spec_std_name()] {
        numbered(key.1, funptr_prefix())
    } else {
        None
    }
}

/// The name `name` in `Std`, written as an absolute path.
pub fn std_fullname(name: &str) -> (r: FullName)
    ensures
        r@.namespace.names == seq![spec_std_name()],
        r@.namespace.is_absolute,
        r@.name == name@,
{
    let mut ns = NameSpace::from_strs(&[std_name()]);
    ns.set_absolute();
    let r = FullName::new(&ns, name);
    assert(r@.namespace.names =~= seq![spec_std_name()]);
    r
}

/// Whether the type constructor is the one named `name` in `Std`.
pub fn is_std_tycon(tc: &TyCon, name: &str) -> (r: bool)
    ensures
        r == (tycon_key(*tc) == std_key(name@)),
{
    let n = std_fullname(name);
    tc.name == n
}

/// The name of the function type constructor `->`, written as an absolute path.
pub fn make_arrow_name_abs() -> (r: FullName)
    ensures
        r@.namespace.names == seq![spec_std_name()],
        r@.namespace.is_absolute,
        r@.name == arrow_name(),
{
    proof {
        reveal_strlit("->");
    }
    std_fullname("->")
}

/// The function type constructor `->`.
pub fn make_arrow_tycon() -> (r: TyCon)
    ensures
        tycon_key(r) == std_key(arrow_name()),
{
    TyCon::new(make_arrow_name_abs())
}

/// The name of the tuple type of `n` elements, written as an absolute path.
pub fn make_tuple_name_abs(n: u32) -> (r: FullName)
    ensures
        r@.namespace.names == seq![spec_std_name()],
        r@.namespace.is_absolute,
        r@.name == tuple_prefix() + nat_text(n as nat),
        tuple_n(tycon_key(TyCon { name: r })) == Some(n as nat),
{
    proof {
        reveal_strlit("Tuple");
    }
    let mut name = str_chars("Tuple");
    let mut digits = u64_text(n as u64);
    name.append(&mut digits);
    let text = string_from_chars(name.as_slice());
    let r = std_fullname(text.as_str());
    proof {
        let t = tuple_prefix() + nat_text(n as nat);
        assert(r@.name =~= t);
        assert(t.subrange(0, 5) =~= tuple_prefix());
        assert(t.skip(5) =~= nat_text(n as nat));
        lemma_nat_text_digits(n as nat);
    }
    r
}

/// The number of elements of the tuple type `name` names, where it names one.
pub fn get_tuple_n(name: &FullName) -> (r: Option<u32>)
    ensures
        r matches Some(n) ==> tuple_n(tycon_key(TyCon { name: *name })) == Some(n as nat),
        r is None ==> tuple_n(tycon_key(TyCon { name: *name })) is None,
{
    proof {
        reveal_strlit("Tuple");
        assert("Tuple"@ =~= tuple_prefix());
    }
    get_numbered(name, "Tuple")
}

/// The number of arguments of the function pointer type `tc` is, where it is one.
pub fn is_funptr_tycon(tc: &TyCon) -> (r: Option<u32>)
    ensures
        r matches Some(n) ==> funptr_n(tycon_key(*tc)) == Some(n as nat),
        r is None ==> funptr_n(tycon_key(*tc)) is None,
{
    proof {
        reveal_strlit("#FunPtr");
        assert("#FunPtr"@ =~= funptr_prefix());
    }
    get_numbered(&tc.name, "#FunPtr")
}

/// The number written after `prefix` in the name of a type of `Std`.
fn get_numbered(name: &FullName, prefix: &str) -> (r: Option<u32>)
    ensures
        r matches Some(n) ==> name@.namespace.names == seq![spec_std_name()] && numbered(
            name@.name,
            prefix@,
        ) == Some(n as nat),
        r is None ==> !(name@.namespace.names == seq![spec_std_name()] && numbered(
            name@.name,
            prefix@,
        ) is Some),
{
    let std = NameSpace::from_strs(&[std_name()]);
    assert(std@.names =~= seq![spec_std_name()]);
    if name.namespace != std {
        return None;
    }
    let text = str_chars(name.name.as_str());
    let p = str_chars(prefix);
    if p.len() > text.len() {
        return None;
    }
    let mut i: usize = 0;
    while i < p.len()
        invariant
            i <= p@.len(),
            p@.len() <= text@.len(),
            text@ == name@.name,
            p@ == prefix@,
            forall|j: int| 0 <= j < i ==> text@[j] == p@[j],
        decreases p@.len() - i,
    {
        if text[i] != p[i] {
            assert(text@.subrange(0, p@.len() as int)[i as int] != p@[i as int]);
            return None;
        }
        i = i + 1;
    }
    assert(text@.subrange(0, p@.len() as int) =~= p@);
    let mut rest: Vec<char> = Vec::new();
    let mut k: usize = p.len();
    while k < text.len()
        invariant
            p@.len() <= k <= text@.len(),
            rest@ == text@.subrange(p@.len() as int, k as int),
        decreases text@.len() - k,
    {
        rest.push(text[k]);
        k = k + 1;
        assert(rest@ =~= text@.subrange(p@.len() as int, k as int));
    }
    assert(rest@ =~= name@.name.skip(prefix@.len() as int));
    parse_u32(rest.as_slice())
}

/// The name of the function pointer type of `n` arguments.
pub fn make_funptr_tycon(n: u32) -> (r: TyCon)
    ensures
        r.name@.namespace.names == seq![spec_std_name()],
        r.name@.name == funptr_prefix() + nat_text(n as nat),
        funptr_n(tycon_key(r)) == Some(n as nat),
{
    proof {
        reveal_strlit("#FunPtr");
    }
    let mut name = str_chars("#FunPtr");
    let mut digits = u64_text(n as u64);
    name.append(&mut digits);
    let text = string_from_chars(name.as_slice());
    let r = TyCon::new(std_fullname(text.as_str()));
    proof {
        let t = funptr_prefix() + nat_text(n as nat);
        assert(r.name@.name =~= t);
        assert(t.subrange(0, 7) =~= funptr_prefix());
        assert(t.skip(7) =~= nat_text(n as nat));
        lemma_nat_text_digits(n as nat);
    }
    r
}

/// The type constructor `Std::Array`.
pub fn make_array_tycon() -> (r: TyCon)
    ensures
        tycon_key(r) == std_key("Array"@),
{
    TyCon::new(std_fullname("Array"))
}

/// The type constructor `Std::IO`.
pub fn make_io_tycon() -> (r: TyCon)
    ensures
        tycon_key(r) == std_key("IO"@),
{
    TyCon::new(std_fullname("IO"))
}

/// The name of `Std::IOState`, the token an `IO` action threads.
pub fn make_iostate_name() -> (r: FullName)
    ensures
        r@.namespace.names == seq![spec_std_name()],
        r@.name == "IOState"@,
{
    std_fullname("IOState")
}

/// The unit type `()`, the tuple of no element.
pub fn make_unit_ty() -> (r: Arc<TypeNode>)
    ensures
        r.ty is TyCon,
        tuple_n(tycon_key(*r.ty->TyCon_0)) == Some(0nat),
{
    type_tycon(&tycon(make_tuple_name_abs(0)))
}

/// Whether `tc` is `Std::Array`.
pub fn is_array_tycon(tc: &TyCon) -> (r: bool)
    ensures
        r == (tycon_key(*tc) == std_key("Array"@)),
{
    is_std_tycon(tc, "Array")
}

/// Whether `tc` is the internal `#ArrayStorage` object holding an array's elements.
pub fn is_array_storage_tycon(tc: &TyCon) -> (r: bool)
    ensures
        r == (tycon_key(*tc) == std_key("#ArrayStorage"@)),
{
    is_std_tycon(tc, "#ArrayStorage")
}

/// Whether `tc` is `Std::PunchedArray`, an array with one element moved out of it.
pub fn is_punched_array_tycon(tc: &TyCon) -> (r: bool)
    ensures
        r == (tycon_key(*tc) == std_key("PunchedArray"@)),
{
    is_std_tycon(tc, "PunchedArray")
}

/// Whether `tc` is `#DynamicObject`, the boxed object a closure keeps its captured values in.
pub fn is_dynamic_object_tycon(tc: &TyCon) -> (r: bool)
    ensures
        r == (tycon_key(*tc) == std_key("#DynamicObject"@)),
{
    is_std_tycon(tc, "#DynamicObject")
}

/// The key of `Std::FFI::Destructor`.
pub open spec fn destructor_key() -> (Seq<Seq<char>>, Seq<char>) {
    (seq![spec_std_name(), "FFI"@], "Destructor"@)
}

/// Whether `tc` is `Std::FFI::Destructor`, which runs the function it holds over its value as
/// it is destroyed.
pub fn is_destructor_object_tycon(tc: &TyCon) -> (r: bool)
    ensures
        r == (tycon_key(*tc) == destructor_key()),
{
    let n = FullName::from_strs(&[std_name(), "FFI"], "Destructor");
    assert(n@.namespace.names =~= seq![spec_std_name(), "FFI"@]);
    tc.name == n
}

} // verus!
