//! The evaluator: the area of a shape tree.

use vstd::prelude::*;
use crate::num::Num;
use crate::error::ErrorKind;
use crate::error::ShapeError;
use crate::shape::Shape;
use crate::shape::ShapeValue;
use crate::shape::depth_ok;
use crate::shape::seq_model;
use crate::shape::shape_model;
use crate::shape::lemma_seq_model;
use crate::arith::PI_BITS;
use crate::arith::ZERO_BITS;
use crate::arith::add_bits;
use crate::arith::mul_bits;
use crate::arith::add64;
use crate::arith::mul64;

verus! {

broadcast use vstd::std_specs::vec::group_vec_axioms, vstd::seq::group_seq_axioms;

/// The area of a shape: pi times the squared radius for a circle, the
/// squared side for a square, width times height for a rectangle, and for a
/// composite the left-to-right sum of the items' areas starting from zero.
/// Every operation is an IEEE-754 binary64 operation on bit patterns, in
/// exactly this order.
pub open spec fn spec_area(s: Shape) -> u64
    decreases s,
{
    match s {
        Shape::Circle { radius } => mul_bits(PI_BITS, mul_bits(radius, radius)),
        Shape::Square { side } => mul_bits(side, side),
        Shape::Rectangle { width, height } => mul_bits(width, height),
        Shape::Composite { items } => sum_areas(items, ZERO_BITS),
    }
}

/// Folds the items' areas into `acc`, left to right.
pub open spec fn sum_areas(items: Seq<Shape>, acc: u64) -> u64
    decreases items,
{
    if items.len() == 0 {
        acc
    } else {
        sum_areas(items.drop_first(), add_bits(acc, spec_area(items.first())))
    }
}

/// Appending an item to a composite adds its area, in order, to the sum so
/// far.
proof fn lemma_sum_areas_push(items: Seq<Shape>, s: Shape, acc: u64)
    ensures
        sum_areas(items.push(s), acc) == add_bits(sum_areas(items, acc), spec_area(s)),
    decreases items.len(),
{
    if items.len() == 0 {
        assert(items.push(s).drop_first() =~= Seq::<Shape>::empty());
        assert(items.push(s).first() == s);
        assert(sum_areas(items.push(s), acc) == sum_areas(
            Seq::<Shape>::empty(),
            add_bits(acc, spec_area(s)),
        ));
        assert(sum_areas(Seq::<Shape>::empty(), add_bits(acc, spec_area(s))) == add_bits(
            acc,
            spec_area(s),
        ));
        assert(sum_areas(items, acc) == acc);
    } else {
        assert(items.push(s).drop_first() =~= items.drop_first().push(s));
        assert(items.push(s).first() == items.first());
        assert(sum_areas(items.push(s), acc) == sum_areas(
            items.drop_first().push(s),
            add_bits(acc, spec_area(items.first())),
        ));
        lemma_sum_areas_push(items.drop_first(), s, add_bits(acc, spec_area(items.first())));
        assert(sum_areas(items, acc) == sum_areas(
            items.drop_first(),
            add_bits(acc, spec_area(items.first())),
        ));
    }
}

/// The area of a composite is the left-to-right sum of its items' areas:
/// an empty composite has the additive identity (positive zero) as its
/// area, and a composite extended by one more item has the extra item's
/// area added, after all earlier items, to the composite's area.
pub proof fn lemma_area_additive(items: Seq<Shape>, s: Shape)
    ensures
        spec_area(Shape::Composite { items: Seq::empty() }) == ZERO_BITS,
        spec_area(Shape::Composite { items: items.push(s) }) == add_bits(
            spec_area(Shape::Composite { items }),
            spec_area(s),
        ),
{
    lemma_sum_areas_push(items, s, ZERO_BITS);
}

impl ShapeValue {
    /// Computes the area of this shape, recursing into composites.  The
    /// recursion is bounded: a composite deeper than `depth_budget` levels
    /// of nesting fails with `DepthExceeded`, and a tree at or within the
    /// budget always succeeds, with the exact IEEE-754 result of `spec_area`.
    #[verifier::loop_isolation(false)]
    pub fn area(&self, depth_budget: u64) -> (r: Result<Num, ShapeError>)
        ensures
            depth_ok(self@, depth_budget as nat) <==> r is Ok,
            r matches Ok(n) ==> n == (Num { bits: spec_area(self@) }),
            r matches Err(e) ==> e.kind == ErrorKind::DepthExceeded && e.path@ == Seq::<
                usize,
            >::empty(),
        decreases *self,
    {
        match self {
            ShapeValue::Circle { radius } => Ok(
                Num { bits: mul64(PI_BITS, mul64(radius.bits, radius.bits)) },
            ),
            ShapeValue::Square { side } => Ok(Num { bits: mul64(side.bits, side.bits) }),
            ShapeValue::Rectangle { width, height } => Ok(
                Num { bits: mul64(width.bits, height.bits) },
            ),
            ShapeValue::Composite { items } => {
                if depth_budget == 0 {
                    return Err(ShapeError::at_root(ErrorKind::DepthExceeded));
                }
                let ghost models: Seq<Shape> = seq_model(items@);
                proof {
                    lemma_seq_model(items@);
                    assert(models.subrange(0, models.len() as int) =~= models);
                }
                let mut acc: u64 = ZERO_BITS;
                let mut idx: usize = 0;
                while idx < items.len()
                    invariant
                        idx <= items.len(),
                        depth_budget >= 1,
                        self@ == (Shape::Composite { items: models }),
                        models == seq_model(items@),
                        models.len() == items@.len(),
                        forall|i: int| 0 <= i < items@.len() ==> models[i] == shape_model(
                            #[trigger] items@[i],
                        ),
                        forall|i: int| 0 <= i < idx ==> depth_ok(
                            #[trigger] models[i],
                            (depth_budget - 1) as nat,
                        ),
                        sum_areas(models.subrange(idx as int, models.len() as int), acc)
                            == sum_areas(models, ZERO_BITS),
                    decreases items.len() - idx,
                {
                    proof {
                        assert(*self == (ShapeValue::Composite { items: *items }));
                        assert(decreases_to!(*self => *items));
                        assert(decreases_to!(*items => items@));
                        assert(decreases_to!(items@ => items@[idx as int]));
                    }
                    let item = &items[idx];
                    match item.area(depth_budget - 1) {
                        Ok(n) => {
                            proof {
                                let rest = models.subrange(idx as int, models.len() as int);
                                assert(rest.first() == models[idx as int]);
                                assert(rest.drop_first() =~= models.subrange(
                                    idx as int + 1,
                                    models.len() as int,
                                ));
                            }
                            acc = add64(acc, n.bits);
                            idx = idx + 1;
                        },
                        Err(e) => {
                            proof {
                                let ghost b1: nat = (depth_budget - 1) as nat;
                                assert(!depth_ok(models[idx as int], b1));
                                assert(b1 == (depth_budget as nat - 1) as nat);
                                if depth_ok(self@, depth_budget as nat) {
                                    assert(crate::shape::items_depth_ok(models, b1));
                                    crate::shape::lemma_items_depth_ok(models, b1);
                                    assert(depth_ok(models[idx as int], b1));
                                    assert(false);
                                }
                            }
                            return Err(e);
                        },
                    }
                }
                proof {
                    assert(models.subrange(models.len() as int, models.len() as int)
                        =~= Seq::<Shape>::empty());
                    crate::shape::lemma_items_depth_ok(models, (depth_budget - 1) as nat);
                    assert(crate::shape::items_depth_ok(models, (depth_budget - 1) as nat));
                    assert(depth_ok(self@, depth_budget as nat));
                }
                Ok(Num { bits: acc })
            },
        }
    }
}

} // verus!
