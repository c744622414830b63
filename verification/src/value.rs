//! Structured values: the JSON-like data that a log call carries.

use vstd::prelude::*;
use crate::number::JsonNumber;

verus! {

/// A JSON-like value. A mapping keeps its members in the order in which they
/// were given.
#[derive(Debug, PartialEq, Eq)]
pub enum StructuredValue {
    Null,
    Bool(bool),
    Number(JsonNumber),
    String(String),
    Sequence(Vec<StructuredValue>),
    Mapping(Vec<(String, StructuredValue)>),
}

/// What a structured value holds. A number stands as its numeral.
pub ghost enum ValueModel {
    Null,
    Bool(bool),
    Number(Seq<char>),
    String(Seq<char>),
    Sequence(Seq<ValueModel>),
    Mapping(Seq<(Seq<char>, ValueModel)>),
}

/// The models of the items of a sequence, in order.
pub open spec fn item_models(items: Seq<StructuredValue>) -> Seq<ValueModel>
    decreases items,
{
    if items.len() == 0 {
        Seq::empty()
    } else {
        item_models(items.drop_last()).push(items.last().model())
    }
}

/// The models of the members of a mapping, in order.
pub open spec fn member_models(members: Seq<(String, StructuredValue)>) -> Seq<
    (Seq<char>, ValueModel),
>
    decreases members,
{
    if members.len() == 0 {
        Seq::empty()
    } else {
        member_models(members.drop_last()).push((members.last().0@, members.last().1.model()))
    }
}

impl StructuredValue {
    /// What the value holds.
    pub open spec fn model(self) -> ValueModel
        decreases self,
    {
        match self {
            StructuredValue::Null => ValueModel::Null,
            StructuredValue::Bool(b) => ValueModel::Bool(b),
            StructuredValue::Number(n) => ValueModel::Number(n@),
            StructuredValue::String(s) => ValueModel::String(s@),
            StructuredValue::Sequence(items) => ValueModel::Sequence(item_models(items@)),
            StructuredValue::Mapping(members) => ValueModel::Mapping(member_models(members@)),
        }
    }
}

impl View for StructuredValue {
    type V = ValueModel;

    open spec fn view(&self) -> ValueModel {
        self.model()
    }
}

/// The models of a sequence of items are the items' models, one for one.
pub proof fn lemma_item_models(items: Seq<StructuredValue>)
    ensures
        item_models(items).len() == items.len(),
        forall|i: int| 0 <= i < items.len() ==> (#[trigger] item_models(items)[i]) == items[i]@,
    decreases items.len(),
{
    if items.len() > 0 {
        lemma_item_models(items.drop_last());
        assert forall|i: int| 0 <= i < items.len() implies (#[trigger] item_models(items)[i])
            == items[i]@ by {
            if i < items.len() - 1 {
                assert(items.drop_last()[i] == items[i]);
            }
        }
    }
}

/// The models of a sequence of members are the members' models, one for one.
pub proof fn lemma_member_models(members: Seq<(String, StructuredValue)>)
    ensures
        member_models(members).len() == members.len(),
        forall|i: int|
            0 <= i < members.len() ==> (#[trigger] member_models(members)[i]) == (
                members[i].0@,
                members[i].1@,
            ),
    decreases members.len(),
{
    if members.len() > 0 {
        lemma_member_models(members.drop_last());
        assert forall|i: int| 0 <= i < members.len() implies (#[trigger] member_models(
            members,
        )[i]) == (members[i].0@, members[i].1@) by {
            if i < members.len() - 1 {
                assert(members.drop_last()[i] == members[i]);
            }
        }
    }
}

/// Sequences of items with the same models, one for one, have the same models.
pub proof fn lemma_item_models_equal(a: Seq<StructuredValue>, b: Seq<StructuredValue>)
    requires
        a.len() == b.len(),
        forall|i: int| 0 <= i < a.len() ==> a[i]@ == b[i]@,
    ensures
        item_models(a) == item_models(b),
{
    lemma_item_models(a);
    lemma_item_models(b);
    assert(item_models(a) =~= item_models(b));
}

/// Sequences of members with the same keys and models, one for one, have
/// the same models.
pub proof fn lemma_member_models_equal(
    a: Seq<(String, StructuredValue)>,
    b: Seq<(String, StructuredValue)>,
)
    requires
        a.len() == b.len(),
        forall|i: int| 0 <= i < a.len() ==> a[i].0@ == b[i].0@ && a[i].1@ == b[i].1@,
    ensures
        member_models(a) == member_models(b),
{
    lemma_member_models(a);
    lemma_member_models(b);
    assert(member_models(a) =~= member_models(b));
}

/// The keys of the members of a mapping, in order.
pub open spec fn member_keys(members: Seq<(Seq<char>, ValueModel)>) -> Seq<Seq<char>> {
    Seq::new(members.len(), |i: int| members[i].0)
}

impl ValueModel {
    /// No mapping in the value, at any depth, holds a key twice.
    pub open spec fn has_distinct_keys(self) -> bool
        decreases self,
    {
        match self {
            ValueModel::Sequence(items) => forall|i: int|
                0 <= i < items.len() ==> (#[trigger] items[i]).has_distinct_keys(),
            ValueModel::Mapping(members) => {
                &&& member_keys(members).no_duplicates()
                &&& forall|i: int|
                    0 <= i < members.len() ==> (#[trigger] members[i]).1.has_distinct_keys()
            },
            _ => true,
        }
    }
}

/// A sequence has distinct keys just where each of its items has; a mapping,
/// where its own keys are distinct and each of its values has distinct keys.
pub proof fn lemma_distinct_keys(value: ValueModel)
    ensures
        value is Sequence ==> (value.has_distinct_keys() <==> forall|i: int|
            0 <= i < value->Sequence_0.len() ==> (
            #[trigger] value->Sequence_0[i]).has_distinct_keys()),
        value is Mapping ==> (value.has_distinct_keys() <==> (member_keys(
            value->Mapping_0,
        ).no_duplicates() && forall|i: int|
            0 <= i < value->Mapping_0.len() ==> (
            #[trigger] value->Mapping_0[i]).1.has_distinct_keys())),
{
}

/// No value of the sequence holds a key twice in one mapping.
pub open spec fn all_distinct_keys(values: Seq<StructuredValue>) -> bool {
    forall|i: int| 0 <= i < values.len() ==> (#[trigger] values[i])@.has_distinct_keys()
}

impl StructuredValue {
    /// Tests whether no mapping in the value, at any depth, holds a key twice.
    pub fn has_distinct_keys(&self) -> (r: bool)
        ensures
            r == self@.has_distinct_keys(),
        decreases self,
    {
        match self {
            StructuredValue::Sequence(items) => {
                proof {
                    lemma_item_models(items@);
                }
                let mut i: usize = 0;
                while i < items.len()
                    invariant
                        i <= items.len(),
                        *self == StructuredValue::Sequence(*items),
                        item_models(items@).len() == items@.len(),
                        forall|k: int|
                            0 <= k < items@.len() ==> (#[trigger] item_models(items@)[k])
                                == items@[k]@,
                        forall|k: int| 0 <= k < i ==> (#[trigger] items@[k])@.has_distinct_keys(),
                    decreases items.len() - i,
                {
                    proof {
                        vstd::std_specs::vec::axiom_vec_index_decreases(*items, i as int);
                        assert(*items == self->Sequence_0);
                    }
                    if !items[i].has_distinct_keys() {
                        proof {
                            let models = item_models(items@);
                            assert(self@ == ValueModel::Sequence(models));
                            assert(models[i as int] == items@[i as int]@);
                            assert(self@->Sequence_0[i as int] == models[i as int]);
                            lemma_distinct_keys(self@);
                        }
                        return false;
                    }
                    i = i + 1;
                }
                assert forall|k: int| 0 <= k < item_models(items@).len() implies (
                #[trigger] item_models(items@)[k]).has_distinct_keys() by {
                    assert(items@[k]@.has_distinct_keys());
                }
                true
            },
            StructuredValue::Mapping(members) => {
                proof {
                    lemma_member_models(members@);
                }
                let ghost models = member_models(members@);
                let mut i: usize = 0;
                while i < members.len()
                    invariant
                        i <= members.len(),
                        *self == StructuredValue::Mapping(*members),
                        models == member_models(members@),
                        models.len() == members@.len(),
                        forall|k: int|
                            0 <= k < members@.len() ==> (#[trigger] models[k]) == (
                                members@[k].0@,
                                members@[k].1@,
                            ),
                        forall|k: int| 0 <= k < i ==> (#[trigger] members@[k]).1@.has_distinct_keys(),
                        forall|a: int, b: int|
                            0 <= a < b < i ==> (#[trigger] members@[a]).0@ != (
                            #[trigger] members@[b]).0@,
                    decreases members.len() - i,
                {
                    proof {
                        vstd::std_specs::vec::axiom_vec_index_decreases(*members, i as int);
                        assert(*members == self->Mapping_0);
                    }
                    if !members[i].1.has_distinct_keys() {
                        assert(models[i as int].1 == members@[i as int].1@);
                        return false;
                    }
                    let mut j: usize = 0;
                    while j < i
                        invariant
                            j <= i < members.len(),
                            *self == StructuredValue::Mapping(*members),
                            models == member_models(members@),
                            models.len() == members@.len(),
                            forall|k: int|
                                0 <= k < members@.len() ==> (#[trigger] models[k]) == (
                                    members@[k].0@,
                                    members@[k].1@,
                                ),
                            forall|a: int|
                                0 <= a < j ==> (#[trigger] members@[a]).0@ != members@[i as int].0@,
                        decreases i - j,
                    {
                        if members[j].0 == members[i].0 {
                            proof {
                                let keys = member_keys(models);
                                assert(keys[j as int] == models[j as int].0);
                                assert(keys[i as int] == models[i as int].0);
                                assert(keys[j as int] == keys[i as int]);
                            }
                            return false;
                        }
                        j = j + 1;
                    }
                    i = i + 1;
                }
                proof {
                    let keys = member_keys(models);
                    assert forall|a: int, b: int|
                        0 <= a < keys.len() && 0 <= b < keys.len() && a != b implies keys[a]
                        != keys[b] by {
                        assert(keys[a] == members@[a].0@);
                        assert(keys[b] == members@[b].0@);
                        if a < b {
                            assert(members@[a].0@ != members@[b].0@);
                        } else {
                            assert(members@[b].0@ != members@[a].0@);
                        }
                    }
                    assert forall|k: int| 0 <= k < models.len() implies (
                    #[trigger] models[k]).1.has_distinct_keys() by {
                        assert(members@[k].1@.has_distinct_keys());
                    }
                }
                true
            },
            _ => true,
        }
    }

    /// A deep copy of the value.
    pub fn duplicate(&self) -> (r: StructuredValue)
        ensures
            r@ == self@,
        decreases self,
    {
        match self {
            StructuredValue::Null => StructuredValue::Null,
            StructuredValue::Bool(b) => StructuredValue::Bool(*b),
            StructuredValue::Number(n) => StructuredValue::Number(n.clone()),
            StructuredValue::String(s) => StructuredValue::String(s.clone()),
            StructuredValue::Sequence(items) => {
                let mut copy: Vec<StructuredValue> = Vec::new();
                let mut i: usize = 0;
                while i < items.len()
                    invariant
                        i <= items.len(),
                        *self == StructuredValue::Sequence(*items),
                        copy@.len() == i,
                        forall|j: int| 0 <= j < i ==> copy@[j]@ == items@[j]@,
                    decreases items.len() - i,
                {
                    proof {
                        vstd::std_specs::vec::axiom_vec_index_decreases(*items, i as int);
                        assert(*items == self->Sequence_0);
                    }
                    copy.push(items[i].duplicate());
                    i = i + 1;
                }
                proof {
                    lemma_item_models_equal(copy@, items@);
                }
                StructuredValue::Sequence(copy)
            },
            StructuredValue::Mapping(members) => {
                let mut copy: Vec<(String, StructuredValue)> = Vec::new();
                let mut i: usize = 0;
                while i < members.len()
                    invariant
                        i <= members.len(),
                        *self == StructuredValue::Mapping(*members),
                        copy@.len() == i,
                        forall|j: int|
                            0 <= j < i ==> copy@[j].0@ == members@[j].0@ && copy@[j].1@
                                == members@[j].1@,
                    decreases members.len() - i,
                {
                    proof {
                        vstd::std_specs::vec::axiom_vec_index_decreases(*members, i as int);
                        assert(*members == self->Mapping_0);
                    }
                    copy.push((members[i].0.clone(), members[i].1.duplicate()));
                    i = i + 1;
                }
                proof {
                    lemma_member_models_equal(copy@, members@);
                }
                StructuredValue::Mapping(copy)
            },
        }
    }
}

impl Clone for StructuredValue {
    fn clone(&self) -> (r: Self)
        ensures
            r@ == self@,
    {
        self.duplicate()
    }
}

/// Tests whether no value of `values` holds a key twice in one mapping.
pub fn have_distinct_keys(values: &Vec<StructuredValue>) -> (r: bool)
    ensures
        r == all_distinct_keys(values@),
{
    let mut i: usize = 0;
    while i < values.len()
        invariant
            i <= values.len(),
            forall|k: int| 0 <= k < i ==> (#[trigger] values@[k])@.has_distinct_keys(),
        decreases values.len() - i,
    {
        if !values[i].has_distinct_keys() {
            return false;
        }
        i = i + 1;
    }
    true
}

} // verus!
