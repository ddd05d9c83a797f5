//! Runtime values of the virtual machine, and their mathematical model.
//!
//! An [`Object`] is what the machine pushes on its stack and stores in its
//! globals table. Its view is a [`Value`], where an array is a sequence of
//! values and a string is a sequence of characters, so that contracts can
//! speak of values structurally.

use vstd::prelude::*;

verus! {

broadcast use vstd::std_specs::vec::group_vec_axioms, vstd::seq::group_seq_axioms;

/// The mathematical model of a runtime value.
#[verifier::ext_equal]
pub enum Value {
    Integer(i64),
    Boolean(bool),
    Null,
    Str(Seq<char>),
    Array(Seq<Value>),
}

/// A runtime value: an integer, a boolean, null, a string, or an array.
#[derive(Debug, PartialEq)]
pub enum Object {
    Integer(i64),
    Boolean(bool),
    Null,
    String(String),
    Array(Vec<Object>),
}

/// The model of an object: arrays become sequences of models.
pub open spec fn obj_view(o: Object) -> Value
    decreases o, 0int,
        via obj_view_decreases
{
    match o {
        Object::Integer(i) => Value::Integer(i),
        Object::Boolean(b) => Value::Boolean(b),
        Object::Null => Value::Null,
        Object::String(s) => Value::Str(s@),
        Object::Array(els) => Value::Array(arr_view(els@)),
    }
}

/// The models of a sequence of objects, element by element.
pub open spec fn arr_view(els: Seq<Object>) -> Seq<Value>
    decreases els, els.len(),
        via arr_view_decreases
{
    if els.len() == 0 {
        Seq::empty()
    } else {
        arr_view(els.drop_last()).push(obj_view(els.last()))
    }
}

#[via_fn]
proof fn obj_view_decreases(o: Object) {
    if let Object::Array(els) = o {
        assert(els == o->Array_0);
        assert(decreases_to!(o => o->Array_0));
        assert(decreases_to!(els => els@));
    }
}

#[via_fn]
proof fn arr_view_decreases(els: Seq<Object>) {
    if els.len() > 0 {
        assert(els.drop_last() == els.subrange(0, els.len() - 1));
        assert(decreases_to!(els => els.subrange(0, els.len() - 1)));
        assert(els.last() == els[els.len() - 1]);
        assert(decreases_to!(els => els[els.len() - 1]));
    }
}

/// The element-wise reading of [`arr_view`]: the model of an array has one
/// entry per element, the model of that element.
pub proof fn lemma_arr_view(els: Seq<Object>)
    ensures
        arr_view(els).len() == els.len(),
        forall|i: int| 0 <= i < els.len() ==> arr_view(els)[i] == obj_view(#[trigger] els[i]),
    decreases els.len(),
{
    if els.len() > 0 {
        lemma_arr_view(els.drop_last());
        assert forall|i: int| 0 <= i < els.len() implies arr_view(els)[i] == obj_view(
            #[trigger] els[i],
        ) by {
            if i < els.len() - 1 {
                assert(els.drop_last()[i] == els[i]);
            } else {
                assert(els.last() == els[i]);
            }
        }
    }
}

/// Pushing one object onto a pool appends its model to the pool's model.
pub proof fn lemma_arr_view_push(older: Seq<Object>, obj: Object)
    ensures
        arr_view(older.push(obj)) == arr_view(older).push(obj@),
{
    assert(older.push(obj).drop_last() =~= older);
    assert(older.push(obj).last() == obj);
}

/// Updating one element of a pool updates exactly that entry of its model.
pub proof fn lemma_arr_view_update(s: Seq<Object>, i: int, o: Object)
    requires
        0 <= i < s.len(),
    ensures
        arr_view(s.update(i, o)) == arr_view(s).update(i, o@),
{
    lemma_arr_view(s.update(i, o));
    lemma_arr_view(s);
    assert forall|j: int| 0 <= j < s.len() implies arr_view(s.update(i, o))[j] == arr_view(
        s,
    ).update(i, o@)[j] by {
        if j == i {
            assert(s.update(i, o)[j] == o);
        } else {
            assert(s.update(i, o)[j] == s[j]);
        }
    }
    assert(arr_view(s.update(i, o)) =~= arr_view(s).update(i, o@));
}

/// Within an array object, each element is structurally smaller than the
/// whole: the measure used by the recursive walks over objects.
pub proof fn lemma_array_element_decreases(o: Object, els: Vec<Object>, i: int)
    requires
        o == Object::Array(els),
        0 <= i < els@.len(),
    ensures
        decreases_to!(o, 0int => els@[i], 0int),
{
    assert(els == o->Array_0);
    assert(decreases_to!(o => o->Array_0));
    assert(decreases_to!(els => els@));
    assert(decreases_to!(els@ => els@[i]));
}

impl View for Object {
    type V = Value;

    open spec fn view(&self) -> Value {
        obj_view(*self)
    }
}

impl Object {
    /// The display name of the value's type.
    pub fn type_str(&self) -> (r: &'static str)
        ensures
            r@ == type_label(self@),
    {
        match self {
            Object::Integer(_) => "INTEGER",
            Object::Boolean(_) => "BOOLEAN",
            Object::Null => "NULL",
            Object::String(_) => "STRING",
            Object::Array(_) => "ARRAY",
        }
    }

    /// A deep copy: the copy has the same model as the value it copies.
    pub fn duplicate(&self) -> (r: Object)
        ensures
            r@ == self@,
        decreases self, 0int,
    {
        match self {
            Object::Integer(i) => Object::Integer(*i),
            Object::Boolean(b) => Object::Boolean(*b),
            Object::Null => Object::Null,
            Object::String(s) => Object::String(s.clone()),
            Object::Array(els) => {
                let mut copy: Vec<Object> = Vec::new();
                let mut i: usize = 0;
                while i < els.len()
                    invariant
                        i <= els@.len(),
                        copy@.len() == i as int,
                        *self == Object::Array(*els),
                        forall|j: int| 0 <= j < i as int ==> copy@[j]@ == #[trigger] els@[j]@,
                    decreases els@.len() - i,
                {
                    proof {
                        lemma_array_element_decreases(*self, *els, i as int);
                    }
                    copy.push(els[i].duplicate());
                    i = i + 1;
                }
                proof {
                    lemma_arr_view(copy@);
                    lemma_arr_view(els@);
                    assert forall|j: int| 0 <= j < els@.len() implies arr_view(copy@)[j]
                        == arr_view(els@)[j] by {
                        assert(copy@[j]@ == els@[j]@);
                    }
                    assert(arr_view(copy@) =~= arr_view(els@));
                }
                Object::Array(copy)
            },
        }
    }
}

/// The display name of a value's type, as a character sequence.
pub open spec fn type_label(v: Value) -> Seq<char> {
    match v {
        Value::Integer(_) => "INTEGER"@,
        Value::Boolean(_) => "BOOLEAN"@,
        Value::Null => "NULL"@,
        Value::Str(_) => "STRING"@,
        Value::Array(_) => "ARRAY"@,
    }
}

/// Structural equality of two objects: true exactly when their models are
/// equal.
pub fn object_eq(a: &Object, b: &Object) -> (r: bool)
    ensures
        r == (a@ == b@),
    decreases a, 0int,
{
    match (a, b) {
        (Object::Integer(x), Object::Integer(y)) => *x == *y,
        (Object::Boolean(x), Object::Boolean(y)) => *x == *y,
        (Object::Null, Object::Null) => true,
        (Object::String(x), Object::String(y)) => x.eq(y),
        (Object::Array(xs), Object::Array(ys)) => {
            proof {
                lemma_arr_view(xs@);
                lemma_arr_view(ys@);
            }
            if xs.len() != ys.len() {
                false
            } else {
                let mut i: usize = 0;
                while i < xs.len()
                    invariant
                        i <= xs@.len(),
                        xs@.len() == ys@.len(),
                        *a == Object::Array(*xs),
                        *b == Object::Array(*ys),
                        forall|j: int|
                            0 <= j < i as int ==> obj_view(xs@[j]) == obj_view(#[trigger] ys@[j]),
                    decreases xs@.len() - i,
                {
                    proof {
                        lemma_array_element_decreases(*a, *xs, i as int);
                    }
                    if !object_eq(&xs[i], &ys[i]) {
                        proof {
                            lemma_arr_view(xs@);
                            lemma_arr_view(ys@);
                            let k = i as int;
                            assert(arr_view(xs@)[k] != arr_view(ys@)[k]);
                        }
                        return false;
                    }
                    i = i + 1;
                }
                proof {
                    lemma_arr_view(xs@);
                    lemma_arr_view(ys@);
                    assert forall|j: int| 0 <= j < xs@.len() implies arr_view(xs@)[j] == arr_view(
                        ys@,
                    )[j] by {
                        assert(obj_view(xs@[j]) == obj_view(ys@[j]));
                    }
                    assert(arr_view(xs@) =~= arr_view(ys@));
                }
                true
            }
        },
        _ => false,
    }
}

} // verus!
