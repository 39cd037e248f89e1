//! The engine's typed value model: the universal currency between the host
//! and the engine.

use vstd::prelude::*;

verus! {

/// A typed engine value.
///
/// `Float` carries an IEEE-754 bit pattern produced at the boundary; the
/// bridge never interprets the bits. `Node` and `Relationship` hold the
/// entity's property map; identity and label information is discarded before
/// a value reaches this type.
#[derive(PartialEq, Eq, Debug)]
pub enum Value {
    Null,
    Bool(bool),
    Int(i64),
    Float(u64),
    Str(String),
    List(Vec<Value>),
    Mapping(Vec<(String, Value)>),
    Node(Vec<(String, Value)>),
    Relationship(Vec<(String, Value)>),
}

/// Spec-level mirror of `Value`.
pub enum VValue {
    Null,
    Bool(bool),
    Int(int),
    Float(u64),
    Str(Seq<char>),
    List(Seq<VValue>),
    Mapping(Seq<(Seq<char>, VValue)>),
    Node(Seq<(Seq<char>, VValue)>),
    Relationship(Seq<(Seq<char>, VValue)>),
}

/// The view of an engine value, defined structurally.
pub open spec fn value_view(v: Value) -> VValue
    decreases v,
{
    match v {
        Value::Null => VValue::Null,
        Value::Bool(b) => VValue::Bool(b),
        Value::Int(i) => VValue::Int(i as int),
        Value::Float(b) => VValue::Float(b),
        Value::Str(s) => VValue::Str(s@),
        Value::List(items) => VValue::List(value_items_view(items@)),
        Value::Mapping(entries) => VValue::Mapping(value_entries_view(entries@)),
        Value::Node(entries) => VValue::Node(value_entries_view(entries@)),
        Value::Relationship(entries) => VValue::Relationship(value_entries_view(entries@)),
    }
}

/// The view of a sequence of values, element by element.
pub open spec fn value_items_view(s: Seq<Value>) -> Seq<VValue>
    decreases s,
{
    if s.len() == 0 {
        Seq::empty()
    } else {
        seq![value_view(s[0])] + value_items_view(s.drop_first())
    }
}

/// The view of a sequence of named values, entry by entry.
pub open spec fn value_entries_view(s: Seq<(String, Value)>) -> Seq<(Seq<char>, VValue)>
    decreases s,
{
    if s.len() == 0 {
        Seq::empty()
    } else {
        seq![(s[0].0@, value_view(s[0].1))] + value_entries_view(s.drop_first())
    }
}

impl View for Value {
    type V = VValue;

    open spec fn view(&self) -> VValue {
        value_view(*self)
    }
}

/// `value_items_view` maps index by index.
pub broadcast proof fn lemma_value_items_view(s: Seq<Value>)
    ensures
        #[trigger] value_items_view(s).len() == s.len(),
        forall|i: int| 0 <= i < s.len() ==> value_items_view(s)[i] == s[i]@,
    decreases s,
{
    if s.len() > 0 {
        lemma_value_items_view(s.drop_first());
        assert forall|i: int| 0 <= i < s.len() implies value_items_view(s)[i] == s[i]@ by {
            if i > 0 {
                assert(value_items_view(s)[i] == value_items_view(s.drop_first())[i - 1]);
                assert(s.drop_first()[i - 1] == s[i]);
            }
        }
    }
}

/// `value_entries_view` maps index by index.
pub broadcast proof fn lemma_value_entries_view(s: Seq<(String, Value)>)
    ensures
        #[trigger] value_entries_view(s).len() == s.len(),
        forall|i: int|
            0 <= i < s.len() ==> value_entries_view(s)[i] == (s[i].0@, s[i].1@),
    decreases s,
{
    if s.len() > 0 {
        lemma_value_entries_view(s.drop_first());
        assert forall|i: int|
            0 <= i < s.len() implies value_entries_view(s)[i] == (s[i].0@, s[i].1@) by {
            if i > 0 {
                assert(value_entries_view(s)[i] == value_entries_view(s.drop_first())[i - 1]);
                assert(s.drop_first()[i - 1] == s[i]);
            }
        }
    }
}

impl VValue {
    /// An engine value is well formed when every map, node and relationship
    /// holds each key at most once, and integers fit the engine's 64-bit
    /// signed range.
    pub open spec fn wf(self) -> bool
        decreases self,
    {
        match self {
            VValue::Int(i) => i64::MIN <= i <= i64::MAX,
            VValue::List(items) => forall|i: int|
                0 <= i < items.len() ==> (#[trigger] items[i]).wf(),
            VValue::Mapping(entries) => Self::entries_wf(entries),
            VValue::Node(entries) => Self::entries_wf(entries),
            VValue::Relationship(entries) => Self::entries_wf(entries),
            _ => true,
        }
    }

    /// Entries of a map value: keys pairwise distinct, values well formed.
    pub open spec fn entries_wf(entries: Seq<(Seq<char>, VValue)>) -> bool
        decreases entries,
    {
        &&& forall|i: int, j: int|
            0 <= i < j < entries.len() ==> entries[i].0 != entries[j].0
        &&& forall|i: int| 0 <= i < entries.len() ==> (#[trigger] entries[i].1).wf()
    }
}

/// One row of a result set: an ordered map from column name to value.
#[derive(PartialEq, Eq, Debug)]
pub struct Row {
    pub cols: Vec<(String, Value)>,
}

/// Spec-level mirror of `Row`.
pub struct VRow {
    pub cols: Seq<(Seq<char>, VValue)>,
}

impl View for Row {
    type V = VRow;

    open spec fn view(&self) -> VRow {
        VRow { cols: value_entries_view(self.cols@) }
    }
}

impl DeepView for Row {
    type V = VRow;

    open spec fn deep_view(&self) -> VRow {
        self.view()
    }
}

/// A deep copy of a value: the same value, field for field.
pub fn clone_value(v: &Value) -> (r: Value)
    ensures
        r@ == v@,
    decreases v, 0int,
{
    match v {
        Value::Null => Value::Null,
        Value::Bool(b) => Value::Bool(*b),
        Value::Int(i) => Value::Int(*i),
        Value::Float(b) => Value::Float(*b),
        Value::Str(s) => Value::Str(s.clone()),
        Value::List(items) => Value::List(clone_items(items)),
        Value::Mapping(entries) => Value::Mapping(clone_entries(entries)),
        Value::Node(entries) => Value::Node(clone_entries(entries)),
        Value::Relationship(entries) => Value::Relationship(clone_entries(entries)),
    }
}

/// A deep copy of a sequence of values.
fn clone_items(items: &Vec<Value>) -> (out: Vec<Value>)
    ensures
        value_items_view(out@) == value_items_view(items@),
    decreases items@, 0int,
{
    let n = items.len();
    let mut out: Vec<Value> = Vec::new();
    let mut i: usize = 0;
    while i < n
        invariant
            i <= n,
            n == items.len(),
            out@.len() == i as int,
            forall|j: int| 0 <= j < i ==> (#[trigger] out@[j])@ == items@[j]@,
        decreases n - i,
    {
        let c = clone_value(&items[i]);
        out.push(c);
        i += 1;
    }
    proof {
        lemma_value_items_view(out@);
        lemma_value_items_view(items@);
        assert(value_items_view(out@) =~= value_items_view(items@));
    }
    out
}

/// A deep copy of a sequence of named values.
pub(crate) fn clone_entries(entries: &Vec<(String, Value)>) -> (out: Vec<(String, Value)>)
    ensures
        value_entries_view(out@) == value_entries_view(entries@),
    decreases entries@, 0int,
{
    let n = entries.len();
    let mut out: Vec<(String, Value)> = Vec::new();
    let mut i: usize = 0;
    while i < n
        invariant
            i <= n,
            n == entries.len(),
            out@.len() == i as int,
            forall|j: int|
                0 <= j < i ==> (#[trigger] out@[j]).0@ == entries@[j].0@ && out@[j].1@
                    == entries@[j].1@,
        decreases n - i,
    {
        let name = entries[i].0.clone();
        let c = clone_value(&entries[i].1);
        out.push((name, c));
        i += 1;
    }
    proof {
        lemma_value_entries_view(out@);
        lemma_value_entries_view(entries@);
        assert(value_entries_view(out@) =~= value_entries_view(entries@));
    }
    out
}

} // verus!
