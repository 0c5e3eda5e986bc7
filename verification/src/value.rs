//! Untyped data values exchanged between worker instances.
//!
//! Inputs and outputs of a worker are freely-shaped values keyed by string
//! handle names. The engine treats them as opaque payloads: it moves them
//! between instances but never interprets their structure, except to read
//! a plain text value where a setting calls for one. Numbers are carried
//! as their decimal text so that the engine itself stays free of
//! floating-point arithmetic; the boundary that speaks JSON converts them.

use vstd::prelude::*;

verus! {

/// Mathematical model of a [`DataValue`]: the same shape over `Seq`.
pub enum ValueModel {
    Null,
    Bool(bool),
    Number(Seq<char>),
    Text(Seq<char>),
    Array(Seq<ValueModel>),
    Object(Seq<(Seq<char>, ValueModel)>),
}

/// A freely-shaped value flowing through a graph execution.
#[derive(Debug, PartialEq)]
pub enum DataValue {
    /// An explicit null.
    Null,
    /// A boolean.
    Bool(bool),
    /// A number, carried as its decimal text.
    Number(String),
    /// A text string.
    Text(String),
    /// An ordered list of values.
    Array(Vec<DataValue>),
    /// An ordered list of named fields.
    Object(Vec<(String, DataValue)>),
}

/// Model of a sequence of values, element by element.
pub open spec fn seq_model(s: Seq<DataValue>) -> Seq<ValueModel>
    decreases s,
{
    if s.len() == 0 {
        Seq::empty()
    } else {
        seq_model(s.drop_last()).push(s.last().model())
    }
}

/// Model of a sequence of named values, element by element.
pub open spec fn pair_seq_model(s: Seq<(String, DataValue)>) -> Seq<(Seq<char>, ValueModel)>
    decreases s,
{
    if s.len() == 0 {
        Seq::empty()
    } else {
        pair_seq_model(s.drop_last()).push((s.last().0@, s.last().1.model()))
    }
}

impl View for DataValue {
    type V = ValueModel;

    open spec fn view(&self) -> ValueModel {
        self.model()
    }
}

impl DataValue {
    /// The model of this value, built structurally.
    pub open spec fn model(&self) -> ValueModel
        decreases self,
        via DataValue::model_decreases
    {
        match self {
            DataValue::Null => ValueModel::Null,
            DataValue::Bool(b) => ValueModel::Bool(*b),
            DataValue::Number(s) => ValueModel::Number(s@),
            DataValue::Text(s) => ValueModel::Text(s@),
            DataValue::Array(xs) => ValueModel::Array(seq_model(xs@)),
            DataValue::Object(ps) => ValueModel::Object(pair_seq_model(ps@)),
        }
    }

    #[via_fn]
    proof fn model_decreases(&self) {
        match self {
            DataValue::Array(xs) => {
                assert(decreases_to!(*self => self->Array_0));
                assert(decreases_to!(self->Array_0 => self->Array_0@));
            },
            DataValue::Object(ps) => {
                assert(decreases_to!(*self => self->Object_0));
                assert(decreases_to!(self->Object_0 => self->Object_0@));
            },
            _ => {},
        }
    }

    /// A deep copy with the same model as the value copied.
    #[verifier::loop_isolation(false)]
    pub fn duplicate(&self) -> (r: DataValue)
        ensures
            r@ == self@,
        decreases self,
    {
        match self {
            DataValue::Null => DataValue::Null,
            DataValue::Bool(b) => DataValue::Bool(*b),
            DataValue::Number(s) => DataValue::Number(s.clone()),
            DataValue::Text(s) => DataValue::Text(s.clone()),
            DataValue::Array(xs) => {
                let mut out: Vec<DataValue> = Vec::new();
                let mut i: usize = 0;
                while i < xs.len()
                    invariant
                        i <= xs.len(),
                        out@.len() == i as int,
                        forall|j: int| 0 <= j < i ==> out@[j]@ == xs@[j]@,
                    decreases xs.len() - i,
                {
                    proof {
                        assert(decreases_to!(*self => self->Array_0));
                        assert(decreases_to!(self->Array_0 => self->Array_0@));
                        assert(decreases_to!(self->Array_0@ => self->Array_0@[i as int]));
                    }
                    let c = xs[i].duplicate();
                    out.push(c);
                    i = i + 1;
                }
                proof {
                    lemma_seq_model(out@);
                    lemma_seq_model(xs@);
                    assert(seq_model(out@) =~= seq_model(xs@));
                }
                DataValue::Array(out)
            },
            DataValue::Object(ps) => {
                let mut out: Vec<(String, DataValue)> = Vec::new();
                let mut i: usize = 0;
                while i < ps.len()
                    invariant
                        i <= ps.len(),
                        out@.len() == i as int,
                        forall|j: int| 0 <= j < i ==> out@[j].0@ == ps@[j].0@ && out@[j].1@
                            == ps@[j].1@,
                    decreases ps.len() - i,
                {
                    proof {
                        assert(decreases_to!(*self => self->Object_0));
                        assert(decreases_to!(self->Object_0 => self->Object_0@));
                        assert(decreases_to!(self->Object_0@ => self->Object_0@[i as int]));
                        assert(decreases_to!(self->Object_0@[i as int] => self->Object_0@[i as int].1));
                    }
                    let k = ps[i].0.clone();
                    let v = ps[i].1.duplicate();
                    out.push((k, v));
                    i = i + 1;
                }
                proof {
                    lemma_pair_seq_model(out@);
                    lemma_pair_seq_model(ps@);
                    assert(pair_seq_model(out@) =~= pair_seq_model(ps@));
                }
                DataValue::Object(out)
            },
        }
    }

    /// The text content of this value, or `None` when it is not text.
    pub fn as_text(&self) -> (r: Option<&String>)
        ensures
            match r {
                Some(s) => self@ == ValueModel::Text(s@),
                None => !(self@ is Text),
            },
    {
        match self {
            DataValue::Text(s) => Some(s),
            _ => None,
        }
    }
}

/// `seq_model` maps a sequence element by element.
pub proof fn lemma_seq_model(s: Seq<DataValue>)
    ensures
        seq_model(s).len() == s.len(),
        forall|i: int| 0 <= i < s.len() ==> seq_model(s)[i] == s[i].model(),
    decreases s.len(),
{
    if s.len() > 0 {
        lemma_seq_model(s.drop_last());
    }
}

/// `pair_seq_model` maps a sequence element by element.
pub proof fn lemma_pair_seq_model(s: Seq<(String, DataValue)>)
    ensures
        pair_seq_model(s).len() == s.len(),
        forall|i: int| 0 <= i < s.len() ==> pair_seq_model(s)[i] == (s[i].0@, s[i].1.model()),
    decreases s.len(),
{
    if s.len() > 0 {
        lemma_pair_seq_model(s.drop_last());
    }
}

} // verus!
