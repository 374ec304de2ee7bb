use vstd::prelude::*;
use vstd::arithmetic::div_mod::lemma_fundamental_div_mod_converse;

verus! {

/// Index of the node that closes element `k` of a closed polygon of `div_num` nodes.
pub open spec fn spec_next_node(k: nat, div_num: nat) -> nat
    recommends
        div_num > 0,
{
    (k + 1) % div_num
}

/// The node at which element `k` ends: `(k + 1) mod div_num`, so the last element
/// closes the polygon at node 0.
pub fn next_node(k: usize, div_num: usize) -> (r: usize)
    requires
        k < div_num,
    ensures
        r as nat == spec_next_node(k as nat, div_num as nat),
        r < div_num,
        r == if k + 1 == div_num { 0 } else { k + 1 },
{
    proof {
        if k + 1 == div_num {
            lemma_fundamental_div_mod_converse(k + 1, div_num as int, 1, 0);
        } else {
            lemma_fundamental_div_mod_converse(k + 1, div_num as int, 0, k + 1);
        }
    }
    if k + 1 == div_num {
        0
    } else {
        k + 1
    }
}

/// The nodes that one entry `[m, n]` of an influence matrix reads.
///
/// The collocation point is the midpoint of element `m`, which spans
/// `mid_start -> mid_end`; the source element is element `n`, which spans
/// `src_start -> src_end`. `self_influence` marks the diagonal entries, whose
/// integral is singular and has a closed form of its own.
#[derive(Debug, Clone, Copy, PartialEq, Eq, Structural)]
pub struct ElementPair {
    pub mid_start: usize,
    pub mid_end: usize,
    pub src_start: usize,
    pub src_end: usize,
    pub self_influence: bool,
}

impl ElementPair {
    /// `self` is the pair that entry `[m, n]` reads on a curve of `div_num` nodes.
    pub open spec fn describes(self, m: nat, n: nat, div_num: nat) -> bool {
        &&& self.mid_start == m
        &&& self.mid_end == spec_next_node(m, div_num)
        &&& self.src_start == n
        &&& self.src_end == spec_next_node(n, div_num)
        &&& self.self_influence == (m == n)
    }
}

/// The element pair behind entry `[m, n]` of the `div_num x div_num` influence
/// matrices: both matrices take their diagonal from the singular case and every
/// other entry from the regular one.
pub fn element_pair(m: usize, n: usize, div_num: usize) -> (r: ElementPair)
    requires
        m < div_num,
        n < div_num,
    ensures
        r.describes(m as nat, n as nat, div_num as nat),
        r.mid_end < div_num,
        r.src_end < div_num,
{
    ElementPair {
        mid_start: m,
        mid_end: next_node(m, div_num),
        src_start: n,
        src_end: next_node(n, div_num),
        self_influence: m == n,
    }
}

} // verus!
