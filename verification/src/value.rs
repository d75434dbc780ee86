use vstd::prelude::*;

verus! {

/// A workload value: the structured data carried by requests and stored in
/// the key-value store. A value is null, a boolean, an integer, a piece of
/// text, or a nested list of values. Values compare by exact structural
/// equality; keys are values as well.
pub enum Value {
    Null,
    Bool(bool),
    Int(i64),
    Text(String),
    List(Vec<Value>),
}

/// The mathematical model of a `Value`: text is a sequence of characters and
/// a list is a sequence of models. Contracts throughout the crate speak of
/// values through this model.
pub enum ValueModel {
    Null,
    Bool(bool),
    Int(int),
    Text(Seq<char>),
    List(Seq<ValueModel>),
}

impl Value {
    /// The model this value denotes.
    pub open spec fn model(self) -> ValueModel
        decreases self,
    {
        match self {
            Value::Null => ValueModel::Null,
            Value::Bool(b) => ValueModel::Bool(b),
            Value::Int(i) => ValueModel::Int(i as int),
            Value::Text(s) => ValueModel::Text(s@),
            Value::List(l) => ValueModel::List(list_model(l@)),
        }
    }

    /// Structural equality, decided executably; two values are equal exactly
    /// when their models are.
    pub fn equals(&self, other: &Value) -> (r: bool)
        ensures
            r == (self@ == other@),
        decreases *self,
    {
        match (self, other) {
            (Value::Null, Value::Null) => true,
            (Value::Bool(a), Value::Bool(b)) => *a == *b,
            (Value::Int(a), Value::Int(b)) => *a == *b,
            (Value::Text(a), Value::Text(b)) => *a == *b,
            (Value::List(a), Value::List(b)) => list_equals(a, b),
            _ => false,
        }
    }

    /// A structurally identical copy of this value.
    pub fn duplicate(&self) -> (r: Value)
        ensures
            r@ == self@,
        decreases *self,
    {
        match self {
            Value::Null => Value::Null,
            Value::Bool(b) => Value::Bool(*b),
            Value::Int(i) => Value::Int(*i),
            Value::Text(s) => Value::Text(s.clone()),
            Value::List(l) => Value::List(list_duplicate(l)),
        }
    }
}

impl View for Value {
    type V = ValueModel;

    open spec fn view(&self) -> ValueModel {
        self.model()
    }
}

/// The model of a list of values, element by element.
pub open spec fn list_model(l: Seq<Value>) -> Seq<ValueModel>
    decreases l,
{
    Seq::new(l.len(), |i: int| if 0 <= i < l.len() {
        l[i].model()
    } else {
        ValueModel::Null
    })
}

/// Element-wise structural equality of two value lists.
fn list_equals(a: &Vec<Value>, b: &Vec<Value>) -> (r: bool)
    ensures
        r == (list_model(a@) == list_model(b@)),
    decreases *a,
{
    if a.len() != b.len() {
        assert(list_model(a@).len() != list_model(b@).len());
        return false;
    }
    let n = a.len();
    let mut i: usize = 0;
    while i < n
        invariant
            n == a.len() == b.len(),
            i <= n,
            forall|j: int| 0 <= j < i ==> a@[j]@ == b@[j]@,
        decreases n - i,
    {
        if !a[i].equals(&b[i]) {
            assert(list_model(a@)[i as int] != list_model(b@)[i as int]);
            return false;
        }
        i += 1;
    }
    assert(list_model(a@) =~= list_model(b@));
    true
}

/// An element-wise copy of a value list.
fn list_duplicate(l: &Vec<Value>) -> (r: Vec<Value>)
    ensures
        list_model(r@) == list_model(l@),
    decreases *l,
{
    let n = l.len();
    let mut out: Vec<Value> = Vec::new();
    let mut i: usize = 0;
    while i < n
        invariant
            n == l.len(),
            i <= n,
            out@.len() == i,
            forall|j: int| 0 <= j < i ==> out@[j]@ == l@[j]@,
        decreases n - i,
    {
        out.push(l[i].duplicate());
        i += 1;
    }
    assert(list_model(out@) =~= list_model(l@));
    out
}

} // verus!
