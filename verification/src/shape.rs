//! Shape values and their mathematical model.

use vstd::prelude::*;
use crate::num::Num;
use crate::num::valid_bits;
use crate::error::ErrorKind;
use crate::error::ShapeError;

verus! {

broadcast use vstd::std_specs::vec::group_vec_axioms, vstd::seq::group_seq_axioms;

/// A shape instance: a tree of variants whose numbers are binary64 bit
/// patterns.  A composite exclusively owns its items, so no cycles are
/// possible.
#[derive(Debug, PartialEq)]
pub enum ShapeValue {
    Circle { radius: Num },
    Square { side: Num },
    Rectangle { width: Num, height: Num },
    Composite { items: Vec<ShapeValue> },
}

/// The mathematical model of a shape: the same tree over plain bit patterns
/// and sequences.
pub ghost enum Shape {
    Circle { radius: u64 },
    Square { side: u64 },
    Rectangle { width: u64, height: u64 },
    Composite { items: Seq<Shape> },
}

/// The model of a shape value.
pub open spec fn shape_model(s: ShapeValue) -> Shape
    decreases s,
    via shape_model_decreases
{
    match s {
        ShapeValue::Circle { radius } => Shape::Circle { radius: radius.bits },
        ShapeValue::Square { side } => Shape::Square { side: side.bits },
        ShapeValue::Rectangle { width, height } => Shape::Rectangle {
            width: width.bits,
            height: height.bits,
        },
        ShapeValue::Composite { items } => Shape::Composite { items: seq_model(items@) },
    }
}

/// The models of a sequence of shape values, in order.
pub open spec fn seq_model(items: Seq<ShapeValue>) -> Seq<Shape>
    decreases items,
{
    if items.len() == 0 {
        Seq::empty()
    } else {
        seq_model(items.drop_last()).push(shape_model(items.last()))
    }
}

#[via_fn]
proof fn shape_model_decreases(s: ShapeValue) {
    match s {
        ShapeValue::Composite { items } => {
            assert(decreases_to!(items => items@));
        },
        _ => {},
    }
}

/// `seq_model` maps the sequence pointwise.
pub proof fn lemma_seq_model(items: Seq<ShapeValue>)
    ensures
        seq_model(items).len() == items.len(),
        forall|i: int| 0 <= i < items.len() ==> seq_model(items)[i] == shape_model(
            #[trigger] items[i],
        ),
    decreases items,
{
    if items.len() > 0 {
        lemma_seq_model(items.drop_last());
        assert forall|i: int| 0 <= i < items.len() implies seq_model(items)[i] == shape_model(
            items[i],
        ) by {
            if i < items.len() - 1 {
                assert(items.drop_last()[i] == items[i]);
                assert(seq_model(items)[i] == seq_model(items.drop_last())[i]);
            } else {
                assert(items.last() == items[i]);
            }
        }
    }
}

impl View for ShapeValue {
    type V = Shape;

    open spec fn view(&self) -> Shape {
        shape_model(*self)
    }
}

/// Every number in the tree is finite and non-negative.
pub open spec fn wf(s: Shape) -> bool
    decreases s,
{
    match s {
        Shape::Circle { radius } => valid_bits(radius),
        Shape::Square { side } => valid_bits(side),
        Shape::Rectangle { width, height } => valid_bits(width) && valid_bits(height),
        Shape::Composite { items } => items_wf(items),
    }
}

/// Every number in every one of the trees is finite and non-negative.
pub open spec fn items_wf(items: Seq<Shape>) -> bool
    decreases items,
{
    items.len() == 0 || (items_wf(items.drop_last()) && wf(items.last()))
}

/// The tree fits within `budget` levels of composite nesting: each composite
/// node consumes one level, and a leaf consumes none.
pub open spec fn depth_ok(s: Shape, budget: nat) -> bool
    decreases s,
{
    match s {
        Shape::Composite { items } => budget > 0 && items_depth_ok(items, (budget - 1) as nat),
        _ => true,
    }
}

/// Every one of the trees fits within `budget` levels of nesting.
pub open spec fn items_depth_ok(items: Seq<Shape>, budget: nat) -> bool
    decreases items,
{
    items.len() == 0 || (items_depth_ok(items.drop_last(), budget) && depth_ok(
        items.last(),
        budget,
    ))
}

/// A sequence of trees is well formed exactly when each tree is.
pub proof fn lemma_items_wf(items: Seq<Shape>)
    ensures
        items_wf(items) <==> (forall|i: int| 0 <= i < items.len() ==> wf(#[trigger] items[i])),
    decreases items.len(),
{
    if items.len() > 0 {
        lemma_items_wf(items.drop_last());
        if items_wf(items) {
            assert forall|i: int| 0 <= i < items.len() implies wf(#[trigger] items[i]) by {
                if i < items.len() - 1 {
                    assert(items.drop_last()[i] == items[i]);
                    assert(wf(items.drop_last()[i]));
                } else {
                    assert(items.last() == items[i]);
                }
            }
        }
        if forall|i: int| 0 <= i < items.len() ==> wf(#[trigger] items[i]) {
            assert forall|i: int| 0 <= i < items.drop_last().len() implies wf(
                #[trigger] items.drop_last()[i],
            ) by {
                assert(items.drop_last()[i] == items[i]);
            }
            assert(items_wf(items.drop_last()));
            assert(items.last() == items[items.len() - 1]);
            assert(items_wf(items));
        }
    }
}

/// A sequence of trees fits within a budget exactly when each tree does.
pub proof fn lemma_items_depth_ok(items: Seq<Shape>, budget: nat)
    ensures
        items_depth_ok(items, budget) <==> (forall|i: int|
            0 <= i < items.len() ==> depth_ok(#[trigger] items[i], budget)),
    decreases items.len(),
{
    if items.len() > 0 {
        lemma_items_depth_ok(items.drop_last(), budget);
        if items_depth_ok(items, budget) {
            assert forall|i: int| 0 <= i < items.len() implies depth_ok(
                #[trigger] items[i],
                budget,
            ) by {
                if i < items.len() - 1 {
                    assert(items.drop_last()[i] == items[i]);
                    assert(depth_ok(items.drop_last()[i], budget));
                } else {
                    assert(items.last() == items[i]);
                }
            }
        }
        if forall|i: int| 0 <= i < items.len() ==> depth_ok(#[trigger] items[i], budget) {
            assert forall|i: int| 0 <= i < items.drop_last().len() implies depth_ok(
                #[trigger] items.drop_last()[i],
                budget,
            ) by {
                assert(items.drop_last()[i] == items[i]);
            }
            assert(items_depth_ok(items.drop_last(), budget));
            assert(items.last() == items[items.len() - 1]);
            assert(depth_ok(items.last(), budget));
            assert(items_depth_ok(items, budget));
        }
    }
}

impl ShapeValue {
    /// Builds a circle, rejecting a negative or non-finite radius.
    pub fn circle(radius: u64) -> (r: Result<ShapeValue, ShapeError>)
        ensures
            valid_bits(radius) ==> r == Ok::<ShapeValue, ShapeError>(
                ShapeValue::Circle { radius: Num { bits: radius } },
            ),
            !valid_bits(radius) ==> (r matches Err(e) && e.kind == ErrorKind::ValidationError
                && e.path@ == Seq::<usize>::empty()),
    {
        if Num::check(radius) {
            Ok(ShapeValue::Circle { radius: Num { bits: radius } })
        } else {
            Err(ShapeError::at_root(ErrorKind::ValidationError))
        }
    }

    /// Builds a square, rejecting a negative or non-finite side.
    pub fn square(side: u64) -> (r: Result<ShapeValue, ShapeError>)
        ensures
            valid_bits(side) ==> r == Ok::<ShapeValue, ShapeError>(
                ShapeValue::Square { side: Num { bits: side } },
            ),
            !valid_bits(side) ==> (r matches Err(e) && e.kind == ErrorKind::ValidationError
                && e.path@ == Seq::<usize>::empty()),
    {
        if Num::check(side) {
            Ok(ShapeValue::Square { side: Num { bits: side } })
        } else {
            Err(ShapeError::at_root(ErrorKind::ValidationError))
        }
    }

    /// Builds a rectangle, rejecting a negative or non-finite width or
    /// height (the width is checked first).
    pub fn rectangle(width: u64, height: u64) -> (r: Result<ShapeValue, ShapeError>)
        ensures
            valid_bits(width) && valid_bits(height) ==> r == Ok::<ShapeValue, ShapeError>(
                ShapeValue::Rectangle { width: Num { bits: width }, height: Num { bits: height } },
            ),
            !(valid_bits(width) && valid_bits(height)) ==> (r matches Err(e)
                && e.kind == ErrorKind::ValidationError && e.path@ == Seq::<usize>::empty()),
    {
        if Num::check(width) && Num::check(height) {
            Ok(ShapeValue::Rectangle { width: Num { bits: width }, height: Num { bits: height } })
        } else {
            Err(ShapeError::at_root(ErrorKind::ValidationError))
        }
    }

    /// Builds a composite from an ordered sequence of items; the sequence
    /// may be empty, and each item is already valid by construction.
    pub fn composite(items: Vec<ShapeValue>) -> (r: ShapeValue)
        ensures
            r@ == (Shape::Composite { items: seq_model(items@) }),
    {
        ShapeValue::Composite { items }
    }

    /// Whether every number in this tree satisfies the invariant.
    pub open spec fn is_wf(&self) -> bool {
        wf(self@)
    }
}

} // verus!
