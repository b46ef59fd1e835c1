//! The wire envelope: a tagged, self-describing structured value.
//!
//! An envelope is an ordered list of keyed fields; a field holds a number,
//! a text, or a list of further envelopes.  The discriminator is the field
//! keyed `"type"`; variant fields stand beside it, and a composite's items
//! are a list of envelopes of the same shape.  When two fields share a key,
//! the first one is the field's meaning.

use vstd::prelude::*;
use crate::num::Num;

verus! {

broadcast use vstd::std_specs::vec::group_vec_axioms, vstd::seq::group_seq_axioms;

/// One field value of an envelope.
#[derive(Debug, PartialEq)]
pub enum Field {
    Number(Num),
    Text(String),
    List(Vec<Envelope>),
}

/// A wire envelope: an ordered list of keyed fields.
#[derive(Debug, PartialEq)]
pub struct Envelope {
    pub entries: Vec<(String, Field)>,
}

/// The model of a field.
pub ghost enum FieldModel {
    Number(u64),
    Text(Seq<char>),
    List(Seq<EnvModel>),
}

/// The model of an envelope.
pub ghost struct EnvModel {
    pub entries: Seq<(Seq<char>, FieldModel)>,
}

/// The model of a field value.
pub open spec fn field_model(f: Field) -> FieldModel
    decreases f,
    via field_model_decreases
{
    match f {
        Field::Number(n) => FieldModel::Number(n.bits),
        Field::Text(s) => FieldModel::Text(s@),
        Field::List(items) => FieldModel::List(env_seq_model(items@)),
    }
}

/// The model of an envelope value.
pub open spec fn env_model(e: Envelope) -> EnvModel
    decreases e,
    via env_model_decreases
{
    EnvModel { entries: entry_seq_model(e.entries@) }
}

/// The models of a list of keyed fields, in order.
pub open spec fn entry_seq_model(entries: Seq<(String, Field)>) -> Seq<(Seq<char>, FieldModel)>
    decreases entries,
{
    if entries.len() == 0 {
        Seq::empty()
    } else {
        entry_seq_model(entries.drop_last()).push(
            (entries.last().0@, field_model(entries.last().1)),
        )
    }
}

/// The models of a list of envelopes, in order.
pub open spec fn env_seq_model(items: Seq<Envelope>) -> Seq<EnvModel>
    decreases items,
{
    if items.len() == 0 {
        Seq::empty()
    } else {
        env_seq_model(items.drop_last()).push(env_model(items.last()))
    }
}

#[via_fn]
proof fn field_model_decreases(f: Field) {
    match f {
        Field::List(items) => {
            assert(decreases_to!(items => items@));
        },
        _ => {},
    }
}

#[via_fn]
proof fn env_model_decreases(e: Envelope) {
    assert(decreases_to!(e => e.entries));
    assert(decreases_to!(e.entries => e.entries@));
}

/// `entry_seq_model` maps the list pointwise.
pub proof fn lemma_entry_seq_model(entries: Seq<(String, Field)>)
    ensures
        entry_seq_model(entries).len() == entries.len(),
        forall|i: int| 0 <= i < entries.len() ==> entry_seq_model(entries)[i] == ((
            #[trigger] entries[i]).0@, field_model(entries[i].1)),
    decreases entries,
{
    if entries.len() > 0 {
        lemma_entry_seq_model(entries.drop_last());
        assert forall|i: int| 0 <= i < entries.len() implies entry_seq_model(entries)[i] == ((
        entries[i]).0@, field_model(entries[i].1)) by {
            if i < entries.len() - 1 {
                assert(entries.drop_last()[i] == entries[i]);
                assert(entry_seq_model(entries)[i] == entry_seq_model(entries.drop_last())[i]);
            } else {
                assert(entries.last() == entries[i]);
            }
        }
    }
}

/// `env_seq_model` maps the list pointwise.
pub proof fn lemma_env_seq_model(items: Seq<Envelope>)
    ensures
        env_seq_model(items).len() == items.len(),
        forall|i: int| 0 <= i < items.len() ==> env_seq_model(items)[i] == env_model(
            #[trigger] items[i],
        ),
    decreases items,
{
    if items.len() > 0 {
        lemma_env_seq_model(items.drop_last());
        assert forall|i: int| 0 <= i < items.len() implies env_seq_model(items)[i] == env_model(
            items[i],
        ) by {
            if i < items.len() - 1 {
                assert(items.drop_last()[i] == items[i]);
                assert(env_seq_model(items)[i] == env_seq_model(items.drop_last())[i]);
            } else {
                assert(items.last() == items[i]);
            }
        }
    }
}

impl View for Field {
    type V = FieldModel;

    open spec fn view(&self) -> FieldModel {
        field_model(*self)
    }
}

impl View for Envelope {
    type V = EnvModel;

    open spec fn view(&self) -> EnvModel {
        env_model(*self)
    }
}

/// The first field with the given key, if any.
pub open spec fn spec_get(
    entries: Seq<(Seq<char>, FieldModel)>,
    key: Seq<char>,
) -> Option<FieldModel>
    decreases entries.len(),
{
    if entries.len() == 0 {
        None
    } else if entries.first().0 == key {
        Some(entries.first().1)
    } else {
        spec_get(entries.drop_first(), key)
    }
}

impl Envelope {
    /// An envelope with no fields yet.
    pub fn empty() -> (r: Envelope)
        ensures
            r@.entries == Seq::<(Seq<char>, FieldModel)>::empty(),
    {
        Envelope { entries: Vec::new() }
    }

    /// Appends a numeric field.
    pub fn push_number(&mut self, key: String, value: Num)
        ensures
            final(self)@.entries == old(self)@.entries.push((key@, FieldModel::Number(value.bits))),
    {
        let ghost orig: Seq<(String, Field)> = self.entries@;
        self.entries.push((key, Field::Number(value)));
        proof {
            assert(self.entries@.drop_last() =~= orig);
        }
    }

    /// Appends a text field.
    pub fn push_text(&mut self, key: String, value: String)
        ensures
            final(self)@.entries == old(self)@.entries.push((key@, FieldModel::Text(value@))),
    {
        let ghost orig: Seq<(String, Field)> = self.entries@;
        self.entries.push((key, Field::Text(value)));
        proof {
            assert(self.entries@.drop_last() =~= orig);
        }
    }

    /// Appends a list field holding sub-envelopes.
    pub fn push_list(&mut self, key: String, items: Vec<Envelope>)
        ensures
            final(self)@.entries == old(self)@.entries.push(
                (key@, FieldModel::List(env_seq_model(items@))),
            ),
    {
        let ghost orig: Seq<(String, Field)> = self.entries@;
        self.entries.push((key, Field::List(items)));
        proof {
            assert(self.entries@.drop_last() =~= orig);
        }
    }

    /// Returns the first field with the given key, if any.
    #[verifier::loop_isolation(false)]
    pub fn get<'a>(&'a self, key: &String) -> (r: Option<&'a Field>)
        ensures
            (spec_get(self@.entries, key@) is Some) <==> r is Some,
            r matches Some(f) ==> spec_get(self@.entries, key@) == Some(f@),
    {
        let ghost model: Seq<(Seq<char>, FieldModel)> = self@.entries;
        proof {
            lemma_entry_seq_model(self.entries@);
            assert(model.subrange(0, model.len() as int) =~= model);
        }
        let mut idx: usize = 0;
        while idx < self.entries.len()
            invariant
                idx <= self.entries.len(),
                spec_get(model.subrange(idx as int, model.len() as int), key@) == spec_get(
                    model,
                    key@,
                ),
            decreases self.entries.len() - idx,
        {
            proof {
                let rest = model.subrange(idx as int, model.len() as int);
                assert(rest.first() == model[idx as int]);
                assert(rest.drop_first() =~= model.subrange(idx as int + 1, model.len() as int));
            }
            let hit = self.entries[idx].0 == *key;
            if hit {
                return Some(&self.entries[idx].1);
            }
            idx = idx + 1;
        }
        proof {
            assert(model.subrange(model.len() as int, model.len() as int) =~= Seq::<
                (Seq<char>, FieldModel),
            >::empty());
        }
        None
    }
}

} // verus!
