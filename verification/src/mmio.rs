use vstd::prelude::*;

verus! {

/// One store to a memory-mapped device register: `value` goes to `addr`.
#[derive(Clone, Copy, Debug, PartialEq, Eq, Structural)]
pub struct RegWrite<V> {
    pub addr: usize,
    pub value: V,
}

} // verus!
