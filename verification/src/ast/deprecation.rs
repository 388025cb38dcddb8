//! The `DEPRECATED[name_path, "msg"];` pragma, and what it attaches to the symbol it names.
use crate::ast::name::{FullName, NameSpace};
use crate::source::Span;
use vstd::prelude::*;

verus! {

/// A `DEPRECATED[...]` statement as written: the name it deprecates, given its full path from
/// the container the statement was written in, and the message.
pub struct DeprecationStatement {
    /// The deprecated name: the path written joined under the container's namespace. A path
    /// written with a leading `::` keeps that mark, so that it can be rejected.
    pub target_path: FullName,
    /// Where the last name of the path was written.
    pub target_name_src: Option<Span>,
    /// The namespace of the container the path was written in: the root at the top level, the
    /// namespace in a `namespace` block, and the trait's path in a trait's body.
    pub origin_namespace: NameSpace,
    /// The message the user wrote.
    pub message: String,
    /// Where the whole statement was written.
    pub src: Option<Span>,
}

/// What a deprecated value or trait member carries: the message to show where it is used.
pub struct DeprecationInfo {
    /// The message the user wrote.
    pub message: String,
}

impl Clone for DeprecationInfo {
    fn clone(&self) -> (r: Self)
        ensures
            r == *self,
    {
        DeprecationInfo { message: self.message.clone() }
    }
}

} // verus!
