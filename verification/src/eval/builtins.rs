//! What the evaluator is given besides the program: the objects that hold
//! the functions of each type.

use vstd::prelude::*;

use crate::eval::state::St;
use crate::eval::value::ObjectRef;

verus! {

#[derive(Clone, Copy, Debug, PartialEq, Eq, Structural)]
pub struct Builtins {
    /// The standard library: empty for now.
    pub std: ObjectRef,
    pub type_functions: TypeFunctions,
}

/// For each type of value, the object that maps a name to the function of
/// that name. `null` has none.
#[derive(Clone, Copy, Debug, PartialEq, Eq, Structural)]
pub struct TypeFunctions {
    pub bools: ObjectRef,
    pub ints: ObjectRef,
    pub strs: ObjectRef,
    pub lists: ObjectRef,
    pub objects: ObjectRef,
    pub funcs: ObjectRef,
}

impl Builtins {
    /// Whether every handle in here names a sealed object of `st`: an
    /// object that no script can reach or change.
    pub open spec fn ok(self, st: St) -> bool {
        &&& st.sealed <= st.objects.len()
        &&& self.std < st.sealed
        &&& self.type_functions.bools < st.sealed
        &&& self.type_functions.ints < st.sealed
        &&& self.type_functions.strs < st.sealed
        &&& self.type_functions.lists < st.sealed
        &&& self.type_functions.objects < st.sealed
        &&& self.type_functions.funcs < st.sealed
    }
}

} // verus!
