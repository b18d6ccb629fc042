//! Blocks and their heights.

use core::cmp::Ordering;
use vstd::laws_cmp::{
    obeys_cmp, obeys_cmp_ord, obeys_cmp_partial_ord, obeys_partial_cmp_spec_properties,
};
use vstd::laws_eq::obeys_eq_spec_properties;
use vstd::prelude::*;
use vstd::std_specs::cmp::PartialOrdSpec;

verus! {

/// `a` is higher than `b`.
pub open spec fn above<Number: PartialOrd>(a: Number, b: Number) -> bool {
    a.partial_cmp_spec(&b) == Some(Ordering::Greater)
}

/// `b` is the block `a`, up to cloning of the hash.
pub open spec fn same_block<Hash: Clone, Number>(a: (Hash, Number), b: (Hash, Number)) -> bool {
    &&& cloned(a.0, b.0)
    &&& a.1 == b.1
}

/// One thing holds if `a` is higher than `b` and another if not. Of numbers whose
/// order is not lawful this only says that one of the two holds.
pub open spec fn by_height<Number: Ord>(
    a: Number,
    b: Number,
    if_above: bool,
    if_not: bool,
) -> bool {
    &&& if_above || if_not
    &&& obeys_cmp::<Number>() ==> if above(a, b) {
        if_above
    } else {
        if_not
    }
}

/// `after` is the higher one of `before` and `block`, up to cloning, and `before`
/// where neither is higher.
pub open spec fn raised<Hash: Clone, Number: Ord>(
    before: (Hash, Number),
    block: (Hash, Number),
    after: (Hash, Number),
) -> bool {
    by_height(block.1, before.1, same_block(block, after), after == before)
}

/// Whether `a` is higher than `b`.
pub fn is_above<Number: Ord>(a: &Number, b: &Number) -> (higher: bool)
    ensures
        obeys_cmp::<Number>() ==> higher == above(*a, *b),
{
    proof {
        reveal(obeys_cmp_partial_ord);
    }
    *a > *b
}

/// A second copy of the block.
pub fn copy_block<Hash: Clone, Number: Copy>(block: &(Hash, Number)) -> (copy: (Hash, Number))
    ensures
        same_block(*block, copy),
{
    (block.0.clone(), block.1)
}

/// No height is above itself, and no two are above each other.
pub proof fn lemma_above_asymmetric<Number: Ord>(a: Number, b: Number)
    requires
        obeys_cmp::<Number>(),
    ensures
        above(a, b) ==> !above(b, a),
        !above(a, a),
{
    reveal(obeys_partial_cmp_spec_properties);
    reveal(obeys_cmp_ord);
}

/// What is at least as high as something that is at least as high as a third is
/// at least as high as the third.
pub proof fn lemma_not_below_transitive<Number: Ord>(a: Number, b: Number, c: Number)
    requires
        obeys_cmp::<Number>(),
        !above(b, a),
        !above(c, b),
    ensures
        !above(c, a),
{
    reveal(obeys_partial_cmp_spec_properties);
    reveal(obeys_cmp_ord);
    reveal(obeys_cmp_partial_ord);
    reveal(obeys_eq_spec_properties);
}

/// What is higher than something that is at least as high as a third is higher
/// than the third.
pub proof fn lemma_above_of_not_below<Number: Ord>(a: Number, b: Number, c: Number)
    requires
        obeys_cmp::<Number>(),
        above(a, b),
        !above(c, b),
    ensures
        above(a, c),
{
    reveal(obeys_partial_cmp_spec_properties);
    reveal(obeys_cmp_ord);
    reveal(obeys_cmp_partial_ord);
    reveal(obeys_eq_spec_properties);
}

} // verus!
