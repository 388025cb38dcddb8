//! The fixed names and separators the compiler writes names with.
use vstd::prelude::*;

verus! {

/// `::`, which separates the names of a path.
pub open spec fn spec_namespace_separator() -> Seq<char> {
    seq![':', ':']
}

/// `.`, which separates the parts of a module name.
pub open spec fn spec_module_separator() -> Seq<char> {
    seq!['.']
}

/// The prefix of the binder the compiler makes for a `_` written in a pattern.
pub open spec fn spec_pattern_wildcard_prefix() -> Seq<char> {
    seq!['#', 'w', 'c']
}

/// The prefix of the type variable the compiler makes for a `_` written in a type.
pub open spec fn spec_type_wildcard_prefix() -> Seq<char> {
    seq!['#', 't', 'w']
}

/// The name of the standard library module.
pub open spec fn spec_std_name() -> Seq<char> {
    seq!['S', 't', 'd']
}

/// The name by which the body of a lambda refers to the lambda itself.
pub open spec fn spec_self_name() -> Seq<char> {
    seq!['%', 'S', 'E', 'L', 'F', '%']
}

/// The name by which the body of a lambda refers to the lambda itself.
pub fn self_name() -> (s: &'static str)
    ensures
        s@ == spec_self_name(),
{
    proof {
        reveal_strlit("%SELF%");
    }
    "%SELF%"
}

/// `::`, which separates the names of a path.
pub fn namespace_separator() -> (s: &'static str)
    ensures
        s@ == spec_namespace_separator(),
{
    proof {
        reveal_strlit("::");
    }
    "::"
}

/// `.`, which separates the parts of a module name.
pub fn module_separator() -> (s: &'static str)
    ensures
        s@ == spec_module_separator(),
{
    proof {
        reveal_strlit(".");
    }
    "."
}

/// The prefix of the binder the compiler makes for a `_` written in a pattern.
pub fn pattern_wildcard_prefix() -> (s: &'static str)
    ensures
        s@ == spec_pattern_wildcard_prefix(),
{
    proof {
        reveal_strlit("#wc");
    }
    "#wc"
}

/// The prefix of the type variable the compiler makes for a `_` written in a type.
pub fn type_wildcard_prefix() -> (s: &'static str)
    ensures
        s@ == spec_type_wildcard_prefix(),
{
    proof {
        reveal_strlit("#tw");
    }
    "#tw"
}

/// The name of the standard library module.
pub fn std_name() -> (s: &'static str)
    ensures
        s@ == spec_std_name(),
{
    proof {
        reveal_strlit("Std");
    }
    "Std"
}

/// The name by which a closure's code refers to the values it captured.
pub open spec fn spec_cap_name() -> Seq<char> {
    seq!['%', 'C', 'A', 'P', '%']
}

/// The name by which a closure's code refers to the values it captured.
pub fn cap_name() -> (s: &'static str)
    ensures
        s@ == spec_cap_name(),
{
    proof {
        reveal_strlit("%CAP%");
    }
    "%CAP%"
}

} // verus!
