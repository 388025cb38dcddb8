//! Names of the versions of functions that borrow their arguments rather than release them.
use crate::ast::name::FullName;
use vstd::prelude::*;

verus! {

/// The name of the version of the function `name` that only borrows the arguments whose bits are
/// set in `borrower_flag`. No such version is named apart yet: the name stays as it is.
pub fn convert_to_borrowing_function_name(name: &mut FullName, borrower_flag: u8)
    ensures
        *final(name) == *old(name),
{
    let _name = name.name_as_mut();
}

} // verus!
