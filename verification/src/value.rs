//! Structured payloads carried in response envelopes.
//!
//! A payload is a tree of strings, fractions, arrays and objects; an object
//! keeps its pairs in insertion order. Fractions stand for decimal values in
//! the unit interval, held in thousandths, so that a classifier confidence
//! can be carried without floating point.

use vstd::prelude::*;

verus! {

/// Mathematical model of a payload: the same tree over sequences.
pub enum ValueModel {
    Str(Seq<char>),
    Frac(u32),
    Arr(Seq<ValueModel>),
    Obj(Seq<(Seq<char>, ValueModel)>),
}

/// A structured payload: a string, a fraction in thousandths of one,
/// an ordered array, or an object of ordered key/value pairs.
#[derive(Debug, PartialEq)]
pub enum Value {
    Str(String),
    Frac(u32),
    Arr(Vec<Value>),
    Obj(Vec<(String, Value)>),
}

/// The model of one payload value.
pub open spec fn model_of(v: Value) -> ValueModel
    decreases v,
{
    match v {
        Value::Str(s) => ValueModel::Str(s@),
        Value::Frac(m) => ValueModel::Frac(m),
        Value::Arr(items) => ValueModel::Arr(models_of(items@)),
        Value::Obj(pairs) => ValueModel::Obj(pair_models_of(pairs@)),
    }
}

/// The models of a sequence of payload values, in order.
pub open spec fn models_of(s: Seq<Value>) -> Seq<ValueModel>
    decreases s,
{
    if s.len() == 0 {
        Seq::empty()
    } else {
        models_of(s.drop_last()).push(model_of(s.last()))
    }
}

/// The models of a sequence of key/value pairs, in order.
pub open spec fn pair_models_of(s: Seq<(String, Value)>) -> Seq<(Seq<char>, ValueModel)>
    decreases s,
{
    if s.len() == 0 {
        Seq::empty()
    } else {
        pair_models_of(s.drop_last()).push((s.last().0@, model_of(s.last().1)))
    }
}

impl View for Value {
    type V = ValueModel;

    open spec fn view(&self) -> ValueModel {
        model_of(*self)
    }
}

/// `models_of` maps the sequence pointwise.
pub proof fn lemma_models_of(s: Seq<Value>)
    ensures
        models_of(s).len() == s.len(),
        forall|i: int| 0 <= i < s.len() ==> models_of(s)[i] == model_of(#[trigger] s[i]),
    decreases s,
{
    if s.len() > 0 {
        lemma_models_of(s.drop_last());
        assert forall|i: int| 0 <= i < s.len() implies models_of(s)[i] == model_of(s[i]) by {
            if i < s.len() - 1 {
                assert(s.drop_last()[i] == s[i]);
            } else {
                assert(s[i] == s.last());
            }
        }
    }
}

/// `pair_models_of` maps the sequence pointwise.
pub proof fn lemma_pair_models_of(s: Seq<(String, Value)>)
    ensures
        pair_models_of(s).len() == s.len(),
        forall|i: int|
            0 <= i < s.len() ==> pair_models_of(s)[i] == ((#[trigger] s[i]).0@, model_of(s[i].1)),
    decreases s,
{
    if s.len() > 0 {
        lemma_pair_models_of(s.drop_last());
        assert forall|i: int|
            0 <= i < s.len() implies pair_models_of(s)[i] == ((s[i]).0@, model_of(s[i].1)) by {
            if i < s.len() - 1 {
                assert(s.drop_last()[i] == s[i]);
            } else {
                assert(s[i] == s.last());
            }
        }
    }
}

/// Builds a one-member object of a string.
pub fn obj1(k1: &str, v1: String) -> (r: Value)
    ensures
        model_of(r) == ValueModel::Obj(seq![(k1@, ValueModel::Str(v1@))]),
{
    let mut fields: Vec<(String, Value)> = Vec::new();
    fields.push((k1.to_owned(), Value::Str(v1)));
    proof {
        lemma_pair_models_of(fields@);
        assert(pair_models_of(fields@)[0] == (fields@[0].0@, model_of(fields@[0].1)));
        assert(pair_models_of(fields@) =~= seq![(k1@, model_of(fields@[0].1))]);
    }
    Value::Obj(fields)
}

/// Builds a two-member object of strings.
pub fn obj2(k1: &str, v1: String, k2: &str, v2: String) -> (r: Value)
    ensures
        model_of(r) == ValueModel::Obj(
            seq![(k1@, ValueModel::Str(v1@)), (k2@, ValueModel::Str(v2@))],
        ),
{
    let mut fields: Vec<(String, Value)> = Vec::new();
    fields.push((k1.to_owned(), Value::Str(v1)));
    fields.push((k2.to_owned(), Value::Str(v2)));
    proof {
        lemma_pair_models_of(fields@);
        assert(pair_models_of(fields@)[0] == (fields@[0].0@, model_of(fields@[0].1)));
        assert(pair_models_of(fields@)[1] == (fields@[1].0@, model_of(fields@[1].1)));
        assert(pair_models_of(fields@) =~= seq![
            (k1@, model_of(fields@[0].1)),
            (k2@, model_of(fields@[1].1)),
        ]);
    }
    Value::Obj(fields)
}

/// Builds a three-member object of strings.
pub fn obj3(k1: &str, v1: String, k2: &str, v2: String, k3: &str, v3: String) -> (r: Value)
    ensures
        model_of(r) == ValueModel::Obj(
            seq![
                (k1@, ValueModel::Str(v1@)),
                (k2@, ValueModel::Str(v2@)),
                (k3@, ValueModel::Str(v3@)),
            ],
        ),
{
    let mut fields: Vec<(String, Value)> = Vec::new();
    fields.push((k1.to_owned(), Value::Str(v1)));
    fields.push((k2.to_owned(), Value::Str(v2)));
    fields.push((k3.to_owned(), Value::Str(v3)));
    proof {
        lemma_pair_models_of(fields@);
        assert(pair_models_of(fields@)[0] == (fields@[0].0@, model_of(fields@[0].1)));
        assert(pair_models_of(fields@)[1] == (fields@[1].0@, model_of(fields@[1].1)));
        assert(pair_models_of(fields@)[2] == (fields@[2].0@, model_of(fields@[2].1)));
        assert(pair_models_of(fields@) =~= seq![
            (k1@, model_of(fields@[0].1)),
            (k2@, model_of(fields@[1].1)),
            (k3@, model_of(fields@[2].1)),
        ]);
    }
    Value::Obj(fields)
}

impl ValueModel {
    /// The keys of an object model, in order; meaningful only for `Obj`.
    pub open spec fn keys(self) -> Seq<Seq<char>> {
        match self {
            ValueModel::Obj(pairs) => pairs.map_values(|p: (Seq<char>, ValueModel)| p.0),
            _ => Seq::empty(),
        }
    }

    /// Whether an object model holds `key`.
    pub open spec fn has_key(self, key: Seq<char>) -> bool {
        self.keys().contains(key)
    }
}

} // verus!
