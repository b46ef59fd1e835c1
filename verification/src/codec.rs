//! The codec: a shape to a tagged envelope, and back.
//!
//! `encode` emits one envelope per node: the discriminator field `"type"`
//! first, then the variant's own fields; a composite carries its encoded
//! items, in order, under `"items"`.  `decode` reads the discriminator,
//! consults the registry for the kind it names, then reads the variant's
//! fields, recursing for composites under an explicit depth bound.  A
//! failure in a nested item is reported once, annotated with the path of
//! item indices that leads to the offending node.

use vstd::prelude::*;
use vstd::string::StringExecFns;
use crate::num::Num;
use crate::num::valid_bits;
use crate::error::ErrModel;
use crate::error::ErrorKind;
use crate::error::ShapeError;
use crate::error::err_at_root;
use crate::shape::Shape;
use crate::shape::ShapeValue;
use crate::shape::depth_ok;
use crate::shape::wf;
use crate::shape::items_wf;
use crate::shape::items_depth_ok;
use crate::registry::has_builtins;
use crate::shape::seq_model;
use crate::shape::lemma_seq_model;
use crate::registry::Registry;
use crate::registry::ShapeKind;
use crate::registry::spec_lookup;
use crate::envelope::EnvModel;
use crate::envelope::Envelope;
use crate::envelope::Field;
use crate::envelope::FieldModel;
use crate::envelope::env_seq_model;
use crate::envelope::lemma_env_seq_model;
use crate::envelope::spec_get;

verus! {

broadcast use vstd::std_specs::vec::group_vec_axioms, vstd::seq::group_seq_axioms;

/// The envelope a shape encodes to: the discriminator first, then the
/// variant's fields, in declaration order.
pub open spec fn spec_encode(s: Shape) -> EnvModel
    decreases s,
{
    match s {
        Shape::Circle { radius } => EnvModel {
            entries: seq![
                ("type"@, FieldModel::Text("Circle"@)),
                ("radius"@, FieldModel::Number(radius)),
            ],
        },
        Shape::Square { side } => EnvModel {
            entries: seq![
                ("type"@, FieldModel::Text("Square"@)),
                ("side"@, FieldModel::Number(side)),
            ],
        },
        Shape::Rectangle { width, height } => EnvModel {
            entries: seq![
                ("type"@, FieldModel::Text("Rectangle"@)),
                ("width"@, FieldModel::Number(width)),
                ("height"@, FieldModel::Number(height)),
            ],
        },
        Shape::Composite { items } => EnvModel {
            entries: seq![
                ("type"@, FieldModel::Text("Composite"@)),
                ("items"@, FieldModel::List(spec_encode_items(items))),
            ],
        },
    }
}

/// The envelopes a sequence of shapes encodes to, in order.
pub open spec fn spec_encode_items(items: Seq<Shape>) -> Seq<EnvModel>
    decreases items,
{
    if items.len() == 0 {
        Seq::empty()
    } else {
        spec_encode_items(items.drop_last()).push(spec_encode(items.last()))
    }
}

/// What decoding a circle envelope yields once the tag has resolved.
pub open spec fn spec_decode_circle(e: EnvModel) -> Result<Shape, ErrModel> {
    match spec_get(e.entries, "radius"@) {
        Some(FieldModel::Number(b)) => if valid_bits(b) {
            Ok(Shape::Circle { radius: b })
        } else {
            Err(err_at_root(ErrorKind::SchemaViolation))
        },
        _ => Err(err_at_root(ErrorKind::SchemaViolation)),
    }
}

/// What decoding a square envelope yields once the tag has resolved.
pub open spec fn spec_decode_square(e: EnvModel) -> Result<Shape, ErrModel> {
    match spec_get(e.entries, "side"@) {
        Some(FieldModel::Number(b)) => if valid_bits(b) {
            Ok(Shape::Square { side: b })
        } else {
            Err(err_at_root(ErrorKind::SchemaViolation))
        },
        _ => Err(err_at_root(ErrorKind::SchemaViolation)),
    }
}

/// What decoding a rectangle envelope yields once the tag has resolved:
/// the width is read first, then the height.
pub open spec fn spec_decode_rectangle(e: EnvModel) -> Result<Shape, ErrModel> {
    match spec_get(e.entries, "width"@) {
        Some(FieldModel::Number(w)) => if valid_bits(w) {
            match spec_get(e.entries, "height"@) {
                Some(FieldModel::Number(h)) => if valid_bits(h) {
                    Ok(Shape::Rectangle { width: w, height: h })
                } else {
                    Err(err_at_root(ErrorKind::SchemaViolation))
                },
                _ => Err(err_at_root(ErrorKind::SchemaViolation)),
            }
        } else {
            Err(err_at_root(ErrorKind::SchemaViolation))
        },
        _ => Err(err_at_root(ErrorKind::SchemaViolation)),
    }
}

/// What decoding an envelope yields: `MissingTag` without a textual
/// discriminator, `UnknownVariant` for a tag the registry does not know,
/// `SchemaViolation` for absent or ill-shaped fields, `DepthExceeded` for a
/// composite past the budget, and otherwise the decoded shape.
pub open spec fn spec_decode(
    reg: Seq<(Seq<char>, ShapeKind)>,
    e: EnvModel,
    budget: nat,
) -> Result<Shape, ErrModel>
    decreases budget, e,
{
    match spec_get(e.entries, "type"@) {
        Some(FieldModel::Text(tag)) => match spec_lookup(reg, tag) {
            Some(kind) => match kind {
                ShapeKind::Circle => spec_decode_circle(e),
                ShapeKind::Square => spec_decode_square(e),
                ShapeKind::Rectangle => spec_decode_rectangle(e),
                ShapeKind::Composite => match spec_get(e.entries, "items"@) {
                    Some(FieldModel::List(inner)) => if budget == 0 {
                        Err(err_at_root(ErrorKind::DepthExceeded))
                    } else {
                        match spec_decode_items(reg, inner, (budget - 1) as nat) {
                            Ok(ss) => Ok(Shape::Composite { items: ss }),
                            Err(em) => Err(em),
                        }
                    },
                    _ => Err(err_at_root(ErrorKind::SchemaViolation)),
                },
            },
            None => Err(err_at_root(ErrorKind::UnknownVariant)),
        },
        _ => Err(err_at_root(ErrorKind::MissingTag)),
    }
}

/// Decodes a list of envelopes in order; the leftmost failure wins and is
/// annotated with its item index.
pub open spec fn spec_decode_items(
    reg: Seq<(Seq<char>, ShapeKind)>,
    items: Seq<EnvModel>,
    budget: nat,
) -> Result<Seq<Shape>, ErrModel>
    decreases budget, items,
{
    if items.len() == 0 {
        Ok(Seq::empty())
    } else {
        match spec_decode_items(reg, items.drop_last(), budget) {
            Ok(ss) => match spec_decode(reg, items.last(), budget) {
                Ok(s) => Ok(ss.push(s)),
                Err(em) => Err(
                    ErrModel {
                        kind: em.kind,
                        path: seq![(items.len() - 1) as usize] + em.path,
                    },
                ),
            },
            Err(em) => Err(em),
        }
    }
}

/// A prefix of the items decoded without failure, and the next item fails:
/// then the whole list fails with that failure, under that index.
proof fn lemma_decode_items_err(
    reg: Seq<(Seq<char>, ShapeKind)>,
    items: Seq<EnvModel>,
    budget: nat,
    j: int,
)
    requires
        0 <= j < items.len(),
        spec_decode_items(reg, items.take(j), budget) is Ok,
        spec_decode(reg, items[j], budget) is Err,
    ensures
        spec_decode_items(reg, items, budget) == Err::<Seq<Shape>, ErrModel>(
            ErrModel {
                kind: spec_decode(reg, items[j], budget)->Err_0.kind,
                path: seq![j as usize] + spec_decode(reg, items[j], budget)->Err_0.path,
            },
        ),
    decreases items.len(),
{
    if j == items.len() - 1 {
        assert(items.take(j) =~= items.drop_last());
        assert(items.last() == items[j]);
    } else {
        assert(items.drop_last().take(j) =~= items.take(j));
        assert(items.drop_last()[j] == items[j]);
        lemma_decode_items_err(reg, items.drop_last(), budget, j);
    }
}

/// The wire keys in play are pairwise distinct where it matters.
proof fn lemma_wire_keys_distinct()
    ensures
        "type"@ != "radius"@,
        "type"@ != "side"@,
        "type"@ != "width"@,
        "type"@ != "height"@,
        "type"@ != "items"@,
        "width"@ != "height"@,
{
    reveal_strlit("type");
    reveal_strlit("radius");
    reveal_strlit("side");
    reveal_strlit("width");
    reveal_strlit("height");
    reveal_strlit("items");
    assert("type"@.len() != "radius"@.len());
    assert("type"@[0] != "side"@[0]);
    assert("type"@.len() != "width"@.len());
    assert("type"@.len() != "height"@.len());
    assert("type"@.len() != "items"@.len());
    assert("width"@.len() != "height"@.len());
}

/// Law: decoding an encoding gives back the original shape, exactly — same
/// variant, same field bit patterns, same item order — for every well-formed
/// shape within the depth budget, under any registry that still binds the
/// built-in tags.
pub proof fn lemma_decode_encode(reg: Seq<(Seq<char>, ShapeKind)>, s: Shape, budget: nat)
    requires
        has_builtins(reg),
        wf(s),
        depth_ok(s, budget),
    ensures
        spec_decode(reg, spec_encode(s), budget) == Ok::<Shape, ErrModel>(s),
    decreases s,
{
    reveal_with_fuel(spec_get, 4);
    lemma_wire_keys_distinct();
    let e = spec_encode(s);
    match s {
        Shape::Circle { radius } => {
            assert(e.entries.drop_first() =~= seq![("radius"@, FieldModel::Number(radius))]);
            assert(spec_get(e.entries, "type"@) == Some(FieldModel::Text("Circle"@)));
            assert(spec_get(e.entries, "radius"@) == Some(FieldModel::Number(radius)));
        },
        Shape::Square { side } => {
            assert(e.entries.drop_first() =~= seq![("side"@, FieldModel::Number(side))]);
            assert(spec_get(e.entries, "type"@) == Some(FieldModel::Text("Square"@)));
            assert(spec_get(e.entries, "side"@) == Some(FieldModel::Number(side)));
        },
        Shape::Rectangle { width, height } => {
            assert(e.entries.drop_first() =~= seq![
                ("width"@, FieldModel::Number(width)),
                ("height"@, FieldModel::Number(height)),
            ]);
            assert(e.entries.drop_first().drop_first() =~= seq![
                ("height"@, FieldModel::Number(height)),
            ]);
            assert(spec_get(e.entries, "type"@) == Some(FieldModel::Text("Rectangle"@)));
            assert(spec_get(e.entries, "width"@) == Some(FieldModel::Number(width)));
            assert(spec_get(e.entries, "height"@) == Some(FieldModel::Number(height)));
        },
        Shape::Composite { items } => {
            let enc_items = spec_encode_items(items);
            assert(e.entries.drop_first() =~= seq![("items"@, FieldModel::List(enc_items))]);
            assert(spec_get(e.entries, "type"@) == Some(FieldModel::Text("Composite"@)));
            assert(spec_get(e.entries, "items"@) == Some(FieldModel::List(enc_items)));
            assert(budget > 0);
            assert(items_wf(items));
            assert(items_depth_ok(items, (budget - 1) as nat));
            lemma_decode_encode_items(reg, items, (budget - 1) as nat);
        },
    }
}

/// Law: a sequence of encoded items decodes back to the original sequence.
proof fn lemma_decode_encode_items(reg: Seq<(Seq<char>, ShapeKind)>, items: Seq<Shape>, budget: nat)
    requires
        has_builtins(reg),
        items_wf(items),
        items_depth_ok(items, budget),
    ensures
        spec_decode_items(reg, spec_encode_items(items), budget) == Ok::<Seq<Shape>, ErrModel>(
            items,
        ),
    decreases items,
{
    if items.len() > 0 {
        let enc = spec_encode_items(items);
        assert(enc.drop_last() =~= spec_encode_items(items.drop_last()));
        assert(enc.last() == spec_encode(items.last()));
        lemma_decode_encode_items(reg, items.drop_last(), budget);
        lemma_decode_encode(reg, items.last(), budget);
        assert(items.drop_last().push(items.last()) =~= items);
    } else {
        assert(items =~= Seq::<Shape>::empty());
    }
}

/// A decoded shape is always structurally valid and fits within the budget
/// that decoded it.
proof fn lemma_decode_wf(reg: Seq<(Seq<char>, ShapeKind)>, e: EnvModel, budget: nat)
    ensures
        spec_decode(reg, e, budget) matches Ok(m) ==> wf(m) && depth_ok(m, budget),
    decreases budget, e,
{
    match spec_get(e.entries, "type"@) {
        Some(FieldModel::Text(tag)) => match spec_lookup(reg, tag) {
            Some(kind) => match kind {
                ShapeKind::Composite => match spec_get(e.entries, "items"@) {
                    Some(FieldModel::List(inner)) => {
                        if budget > 0 {
                            lemma_decode_items_wf(reg, inner, (budget - 1) as nat);
                        }
                    },
                    _ => {},
                },
                _ => {},
            },
            _ => {},
        },
        _ => {},
    }
}

/// Decoded item sequences are valid, within budget, and as long as the list
/// that produced them.
proof fn lemma_decode_items_wf(reg: Seq<(Seq<char>, ShapeKind)>, items: Seq<EnvModel>, budget: nat)
    ensures
        spec_decode_items(reg, items, budget) matches Ok(ss) ==> items_wf(ss) && items_depth_ok(
            ss,
            budget,
        ) && ss.len() == items.len(),
    decreases budget, items,
{
    if items.len() > 0 {
        lemma_decode_items_wf(reg, items.drop_last(), budget);
        lemma_decode_wf(reg, items.last(), budget);
        match spec_decode_items(reg, items, budget) {
            Ok(ss) => {
                let prefix = spec_decode_items(reg, items.drop_last(), budget)->Ok_0;
                assert(ss == prefix.push(spec_decode(reg, items.last(), budget)->Ok_0));
                assert(ss.drop_last() =~= prefix);
            },
            Err(_) => {},
        }
    }
}

/// Encodes a shape into a tagged envelope, one envelope per node.  A
/// composite deeper than `depth_budget` levels fails with `DepthExceeded`;
/// within the budget the encoding always succeeds and is exactly
/// `spec_encode` of the shape's model.
#[verifier::loop_isolation(false)]
pub fn encode(s: &ShapeValue, depth_budget: u64) -> (r: Result<Envelope, ShapeError>)
    ensures
        depth_ok(s@, depth_budget as nat) <==> r is Ok,
        r matches Ok(e) ==> e@ == spec_encode(s@),
        r matches Err(err) ==> err@ == err_at_root(ErrorKind::DepthExceeded),
    decreases depth_budget,
{
    match s {
        ShapeValue::Circle { radius } => {
            let mut env = Envelope::empty();
            env.push_text(String::from_str("type"), String::from_str("Circle"));
            env.push_number(String::from_str("radius"), *radius);
            proof {
                assert(env@.entries =~= spec_encode(s@).entries);
            }
            Ok(env)
        },
        ShapeValue::Square { side } => {
            let mut env = Envelope::empty();
            env.push_text(String::from_str("type"), String::from_str("Square"));
            env.push_number(String::from_str("side"), *side);
            proof {
                assert(env@.entries =~= spec_encode(s@).entries);
            }
            Ok(env)
        },
        ShapeValue::Rectangle { width, height } => {
            let mut env = Envelope::empty();
            env.push_text(String::from_str("type"), String::from_str("Rectangle"));
            env.push_number(String::from_str("width"), *width);
            env.push_number(String::from_str("height"), *height);
            proof {
                assert(env@.entries =~= spec_encode(s@).entries);
            }
            Ok(env)
        },
        ShapeValue::Composite { items } => {
            if depth_budget == 0 {
                return Err(ShapeError::at_root(ErrorKind::DepthExceeded));
            }
            let ghost models: Seq<Shape> = seq_model(items@);
            proof {
                lemma_seq_model(items@);
                assert(s@ == (Shape::Composite { items: models }));
            }
            let mut out: Vec<Envelope> = Vec::new();
            let mut idx: usize = 0;
            while idx < items.len()
                invariant
                    idx <= items.len(),
                    depth_budget >= 1,
                    s@ == (Shape::Composite { items: models }),
                    models == seq_model(items@),
                    models.len() == items@.len(),
                    forall|i: int| 0 <= i < items@.len() ==> models[i] == crate::shape::shape_model(
                        #[trigger] items@[i],
                    ),
                    out@.len() == idx,
                    env_seq_model(out@) == spec_encode_items(models.take(idx as int)),
                    forall|i: int| 0 <= i < idx ==> depth_ok(
                        #[trigger] models[i],
                        (depth_budget - 1) as nat,
                    ),
                decreases items.len() - idx,
            {
                match encode(&items[idx], depth_budget - 1) {
                    Ok(child) => {
                        let ghost prev: Seq<Envelope> = out@;
                        out.push(child);
                        proof {
                            assert(out@.drop_last() =~= prev);
                            assert(out@.last() == child);
                            let t = models.take(idx as int + 1);
                            assert(t.drop_last() =~= models.take(idx as int));
                            assert(t.last() == models[idx as int]);
                        }
                        idx = idx + 1;
                    },
                    Err(err) => {
                        proof {
                            let ghost b1: nat = (depth_budget - 1) as nat;
                            assert(!depth_ok(models[idx as int], b1));
                            assert(b1 == (depth_budget as nat - 1) as nat);
                            if depth_ok(s@, depth_budget as nat) {
                                assert(crate::shape::items_depth_ok(models, b1));
                                crate::shape::lemma_items_depth_ok(models, b1);
                                assert(depth_ok(models[idx as int], b1));
                                assert(false);
                            }
                        }
                        return Err(err);
                    },
                }
            }
            proof {
                assert(models.take(models.len() as int) =~= models);
                crate::shape::lemma_items_depth_ok(models, (depth_budget - 1) as nat);
                assert(crate::shape::items_depth_ok(models, (depth_budget - 1) as nat));
                assert(depth_ok(s@, depth_budget as nat));
            }
            let mut env = Envelope::empty();
            env.push_text(String::from_str("type"), String::from_str("Composite"));
            env.push_list(String::from_str("items"), out);
            proof {
                assert(env@.entries =~= spec_encode(s@).entries);
            }
            Ok(env)
        },
    }
}

/// Decodes a tagged envelope back into a shape, consulting the registry for
/// the kind each tag names.  The result is exactly `spec_decode` of the
/// envelope's model; a decoded shape is always structurally valid and fits
/// within the depth budget.
#[verifier::loop_isolation(false)]
pub fn decode(reg: &Registry, e: &Envelope, depth_budget: u64) -> (r: Result<
    ShapeValue,
    ShapeError,
>)
    ensures
        spec_decode(reg@, e@, depth_budget as nat) matches Ok(m) ==> (r matches Ok(v) && v@ == m),
        spec_decode(reg@, e@, depth_budget as nat) matches Err(em) ==> (r matches Err(err) && err@
            == em),
        r matches Ok(v) ==> v.is_wf() && depth_ok(v@, depth_budget as nat),
    decreases depth_budget,
{
    proof {
        lemma_decode_wf(reg@, e@, depth_budget as nat);
    }
    let k_type = String::from_str("type");
    let got_tag = e.get(&k_type);
    match got_tag {
        Some(Field::Text(tag)) => {
            match reg.lookup(tag) {
                Ok(kind) => match kind {
                    ShapeKind::Circle => {
                        let k = String::from_str("radius");
                        match e.get(&k) {
                            Some(Field::Number(n)) => {
                                if Num::check(n.bits) {
                                    Ok(ShapeValue::Circle { radius: *n })
                                } else {
                                    Err(ShapeError::at_root(ErrorKind::SchemaViolation))
                                }
                            },
                            _ => Err(ShapeError::at_root(ErrorKind::SchemaViolation)),
                        }
                    },
                    ShapeKind::Square => {
                        let k = String::from_str("side");
                        match e.get(&k) {
                            Some(Field::Number(n)) => {
                                if Num::check(n.bits) {
                                    Ok(ShapeValue::Square { side: *n })
                                } else {
                                    Err(ShapeError::at_root(ErrorKind::SchemaViolation))
                                }
                            },
                            _ => Err(ShapeError::at_root(ErrorKind::SchemaViolation)),
                        }
                    },
                    ShapeKind::Rectangle => {
                        let kw = String::from_str("width");
                        match e.get(&kw) {
                            Some(Field::Number(w)) => {
                                if Num::check(w.bits) {
                                    let kh = String::from_str("height");
                                    match e.get(&kh) {
                                        Some(Field::Number(h)) => {
                                            if Num::check(h.bits) {
                                                Ok(
                                                    ShapeValue::Rectangle {
                                                        width: *w,
                                                        height: *h,
                                                    },
                                                )
                                            } else {
                                                Err(
                                                    ShapeError::at_root(
                                                        ErrorKind::SchemaViolation,
                                                    ),
                                                )
                                            }
                                        },
                                        _ => Err(ShapeError::at_root(ErrorKind::SchemaViolation)),
                                    }
                                } else {
                                    Err(ShapeError::at_root(ErrorKind::SchemaViolation))
                                }
                            },
                            _ => Err(ShapeError::at_root(ErrorKind::SchemaViolation)),
                        }
                    },
                    ShapeKind::Composite => {
                        let k = String::from_str("items");
                        match e.get(&k) {
                            Some(Field::List(inner)) => {
                                if depth_budget == 0 {
                                    return Err(ShapeError::at_root(ErrorKind::DepthExceeded));
                                }
                                let ghost inner_models: Seq<EnvModel> = env_seq_model(inner@);
                                proof {
                                    lemma_env_seq_model(inner@);
                                }
                                let mut out: Vec<ShapeValue> = Vec::new();
                                let mut idx: usize = 0;
                                while idx < inner.len()
                                    invariant
                                        idx <= inner.len(),
                                        out@.len() == idx,
                                        spec_decode_items(
                                            reg@,
                                            inner_models.take(idx as int),
                                            (depth_budget - 1) as nat,
                                        ) == Ok::<Seq<Shape>, ErrModel>(seq_model(out@)),
                                    decreases inner.len() - idx,
                                {
                                    match decode(reg, &inner[idx], depth_budget - 1) {
                                        Ok(child) => {
                                            let ghost prev: Seq<ShapeValue> = out@;
                                            out.push(child);
                                            proof {
                                                assert(out@.drop_last() =~= prev);
                                                assert(out@.last() == child);
                                                let t = inner_models.take(idx as int + 1);
                                                assert(t.drop_last() =~= inner_models.take(
                                                    idx as int,
                                                ));
                                                assert(t.last() == inner_models[idx as int]);
                                            }
                                            idx = idx + 1;
                                        },
                                        Err(err) => {
                                            proof {
                                                lemma_decode_items_err(
                                                    reg@,
                                                    inner_models,
                                                    (depth_budget - 1) as nat,
                                                    idx as int,
                                                );
                                            }
                                            return Err(err.under_item(idx));
                                        },
                                    }
                                }
                                proof {
                                    assert(inner_models.take(inner_models.len() as int)
                                        =~= inner_models);
                                }
                                Ok(ShapeValue::Composite { items: out })
                            },
                            _ => Err(ShapeError::at_root(ErrorKind::SchemaViolation)),
                        }
                    },
                },
                Err(err) => Err(err),
            }
        },
        Some(_) => Err(ShapeError::at_root(ErrorKind::MissingTag)),
        None => Err(ShapeError::at_root(ErrorKind::MissingTag)),
    }
}

} // verus!
