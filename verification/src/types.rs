//! Runtime values and the type signatures that admit them.

use vstd::prelude::*;

verus! {

/// Mathematical model of a [`Value`].
pub enum ValueView {
    Void,
    Int(int),
    Bool(bool),
    Buffer(Seq<u8>),
    Principal(Seq<u8>),
    Tuple(Seq<(Seq<char>, ValueView)>),
}

/// A runtime datum of the contract language.
#[derive(Debug, Hash)]
pub enum Value {
    /// The absent value.
    Void,
    Int(i128),
    Bool(bool),
    /// A byte string.
    Buffer(Vec<u8>),
    /// The address of an account or contract.
    Principal(Vec<u8>),
    /// Named fields, in declaration order.
    Tuple(Vec<(String, Value)>),
}

impl Value {
    /// The mathematical value this datum stands for.
    pub open spec fn model(&self) -> ValueView
        decreases self,
    {
        match self {
            Value::Void => ValueView::Void,
            Value::Int(i) => ValueView::Int(*i as int),
            Value::Bool(b) => ValueView::Bool(*b),
            Value::Buffer(b) => ValueView::Buffer(b@),
            Value::Principal(p) => ValueView::Principal(p@),
            Value::Tuple(fields) => ValueView::Tuple(
                Seq::new(
                    fields@.len(),
                    |i: int|
                        if 0 <= i < fields@.len() {
                            (fields@[i].0@, fields@[i].1.model())
                        } else {
                            (Seq::empty(), ValueView::Void)
                        },
                ),
            ),
        }
    }
}

impl View for Value {
    type V = ValueView;

    open spec fn view(&self) -> ValueView {
        self.model()
    }
}

impl PartialEq for Value {
    /// Two values are equal when they stand for the same mathematical value.
    fn eq(&self, other: &Value) -> (r: bool)
        decreases self,
    {
        match (self, other) {
            (Value::Void, Value::Void) => true,
            (Value::Int(a), Value::Int(b)) => *a == *b,
            (Value::Bool(a), Value::Bool(b)) => *a == *b,
            (Value::Buffer(a), Value::Buffer(b)) => {
                let r = a == b;
                assert(r == (a@ =~= b@));
                r
            },
            (Value::Principal(a), Value::Principal(b)) => {
                let r = a == b;
                assert(r == (a@ =~= b@));
                r
            },
            (Value::Tuple(a), Value::Tuple(b)) => {
                if a.len() != b.len() {
                    assert(self@->Tuple_0.len() != other@->Tuple_0.len());
                    return false;
                }
                let mut i: usize = 0;
                while i < a.len()
                    invariant
                        0 <= i <= a.len(),
                        a.len() == b.len(),
                        self == Value::Tuple(*a),
                        other == Value::Tuple(*b),
                        forall|j: int| 0 <= j < i ==> self@->Tuple_0[j] == other@->Tuple_0[j],
                    decreases a.len() - i,
                {
                    if a[i].0 != b[i].0 || !a[i].1.eq(&b[i].1) {
                        assert(self@->Tuple_0[i as int] != other@->Tuple_0[i as int]);
                        assert(self@ != other@);
                        return false;
                    }
                    i = i + 1;
                }
                assert(self@->Tuple_0 =~= other@->Tuple_0);
                true
            },
            _ => false,
        }
    }
}

impl vstd::std_specs::cmp::PartialEqSpecImpl for Value {
    open spec fn obeys_eq_spec() -> bool {
        true
    }

    open spec fn eq_spec(&self, other: &Value) -> bool {
        self@ == other@
    }
}

impl Eq for Value {

}

impl Clone for Value {
    fn clone(&self) -> (r: Value)
        ensures
            r@ == self@,
        decreases self,
    {
        match self {
            Value::Void => Value::Void,
            Value::Int(i) => Value::Int(*i),
            Value::Bool(b) => Value::Bool(*b),
            Value::Buffer(bytes) => Value::Buffer(bytes.clone()),
            Value::Principal(bytes) => Value::Principal(bytes.clone()),
            Value::Tuple(fields) => {
                let mut copy: Vec<(String, Value)> = Vec::new();
                let mut i: usize = 0;
                while i < fields.len()
                    invariant
                        0 <= i <= fields.len(),
                        self == Value::Tuple(*fields),
                        copy.len() == i,
                        forall|j: int|
                            0 <= j < i ==> (#[trigger] copy@[j]).0@ == fields@[j].0@ && copy@[j].1@
                                == fields@[j].1@,
                    decreases fields.len() - i,
                {
                    assert(decreases_to!(*self => self->Tuple_0[i as int].1));
                    copy.push((fields[i].0.clone(), fields[i].1.clone()));
                    i = i + 1;
                }
                let r = Value::Tuple(copy);
                assert(r@->Tuple_0 =~= self@->Tuple_0);
                r
            },
        }
    }
}

/// Mathematical model of a [`TypeSignature`].
pub enum TypeSignatureView {
    Void,
    Int,
    Bool,
    Buffer(nat),
    Principal,
    Tuple(Seq<(Seq<char>, TypeSignatureView)>),
}

impl TypeSignatureView {
    /// Whether a value conforms to this signature. A buffer conforms when it is no
    /// longer than the bound; a tuple conforms when it has the same field names in the
    /// same order and each field's value conforms to that field's signature.
    pub open spec fn admits(self, value: ValueView) -> bool
        decreases self,
    {
        match self {
            TypeSignatureView::Void => value is Void,
            TypeSignatureView::Int => value is Int,
            TypeSignatureView::Bool => value is Bool,
            TypeSignatureView::Buffer(max_len) => match value {
                ValueView::Buffer(bytes) => bytes.len() <= max_len,
                _ => false,
            },
            TypeSignatureView::Principal => value is Principal,
            TypeSignatureView::Tuple(types) => match value {
                ValueView::Tuple(fields) => {
                    &&& types.len() == fields.len()
                    &&& forall|i: int|
                        0 <= i < types.len() ==> {
                            &&& (#[trigger] types[i]).0 == fields[i].0
                            &&& types[i].1.admits(fields[i].1)
                        }
                },
                _ => false,
            },
        }
    }
}

/// The shape a value must have.
#[derive(Debug, Hash)]
pub enum TypeSignature {
    Void,
    Int,
    Bool,
    /// Byte strings of at most this many bytes.
    Buffer(u32),
    Principal,
    /// Tuples with exactly these named fields, in this order.
    Tuple(Vec<(String, TypeSignature)>),
}

impl TypeSignature {
    /// The mathematical signature this type stands for.
    pub open spec fn model(&self) -> TypeSignatureView
        decreases self,
    {
        match self {
            TypeSignature::Void => TypeSignatureView::Void,
            TypeSignature::Int => TypeSignatureView::Int,
            TypeSignature::Bool => TypeSignatureView::Bool,
            TypeSignature::Buffer(max_len) => TypeSignatureView::Buffer(*max_len as nat),
            TypeSignature::Principal => TypeSignatureView::Principal,
            TypeSignature::Tuple(types) => TypeSignatureView::Tuple(
                Seq::new(
                    types@.len(),
                    |i: int|
                        if 0 <= i < types@.len() {
                            (types@[i].0@, types@[i].1.model())
                        } else {
                            (Seq::empty(), TypeSignatureView::Void)
                        },
                ),
            ),
        }
    }
}

impl View for TypeSignature {
    type V = TypeSignatureView;

    open spec fn view(&self) -> TypeSignatureView {
        self.model()
    }
}

impl TypeSignature {
    /// Decides whether `value` conforms to this signature.
    pub fn admits(&self, value: &Value) -> (r: bool)
        ensures
            r == self@.admits(value@),
        decreases self,
    {
        match self {
            TypeSignature::Void => matches!(value, Value::Void),
            TypeSignature::Int => matches!(value, Value::Int(_)),
            TypeSignature::Bool => matches!(value, Value::Bool(_)),
            TypeSignature::Buffer(max_len) => match value {
                Value::Buffer(bytes) => bytes.len() <= *max_len as usize,
                _ => false,
            },
            TypeSignature::Principal => matches!(value, Value::Principal(_)),
            TypeSignature::Tuple(types) => match value {
                Value::Tuple(fields) => {
                    if types.len() != fields.len() {
                        return false;
                    }
                    let mut i: usize = 0;
                    while i < types.len()
                        invariant
                            0 <= i <= types.len(),
                            types.len() == fields.len(),
                            self == TypeSignature::Tuple(*types),
                            value == Value::Tuple(*fields),
                            forall|j: int|
                                0 <= j < i ==> {
                                    &&& (#[trigger] self@->Tuple_0[j]).0 == value@->Tuple_0[j].0
                                    &&& self@->Tuple_0[j].1.admits(value@->Tuple_0[j].1)
                                },
                        decreases types.len() - i,
                    {
                        if types[i].0 != fields[i].0 || !types[i].1.admits(&fields[i].1) {
                            assert(!self@.admits(value@)) by {
                                let k = i as int;
                                assert(self@->Tuple_0[k] == (types@[k].0@, types@[k].1@));
                                assert(value@->Tuple_0[k] == (fields@[k].0@, fields@[k].1@));
                            }
                            return false;
                        }
                        assert(self@->Tuple_0[i as int] == (types@[i as int].0@, types@[i as int].1@));
                        assert(value@->Tuple_0[i as int] == (fields@[i as int].0@, fields@[i as int].1@));
                        i = i + 1;
                    }
                    true
                },
                _ => false,
            },
        }
    }
}

impl PartialEq for TypeSignature {
    /// Two signatures are equal when they stand for the same mathematical signature.
    fn eq(&self, other: &TypeSignature) -> (r: bool)
        decreases self,
    {
        match (self, other) {
            (TypeSignature::Void, TypeSignature::Void) => true,
            (TypeSignature::Int, TypeSignature::Int) => true,
            (TypeSignature::Bool, TypeSignature::Bool) => true,
            (TypeSignature::Buffer(a), TypeSignature::Buffer(b)) => *a == *b,
            (TypeSignature::Principal, TypeSignature::Principal) => true,
            (TypeSignature::Tuple(a), TypeSignature::Tuple(b)) => {
                if a.len() != b.len() {
                    assert(self@->Tuple_0.len() != other@->Tuple_0.len());
                    return false;
                }
                let mut i: usize = 0;
                while i < a.len()
                    invariant
                        0 <= i <= a.len(),
                        a.len() == b.len(),
                        self == TypeSignature::Tuple(*a),
                        other == TypeSignature::Tuple(*b),
                        forall|j: int| 0 <= j < i ==> self@->Tuple_0[j] == other@->Tuple_0[j],
                    decreases a.len() - i,
                {
                    if a[i].0 != b[i].0 || !a[i].1.eq(&b[i].1) {
                        assert(self@->Tuple_0[i as int] != other@->Tuple_0[i as int]);
                        assert(self@ != other@);
                        return false;
                    }
                    i = i + 1;
                }
                assert(self@->Tuple_0 =~= other@->Tuple_0);
                true
            },
            _ => false,
        }
    }
}

impl vstd::std_specs::cmp::PartialEqSpecImpl for TypeSignature {
    open spec fn obeys_eq_spec() -> bool {
        true
    }

    open spec fn eq_spec(&self, other: &TypeSignature) -> bool {
        self@ == other@
    }
}

impl Eq for TypeSignature {

}

impl Clone for TypeSignature {
    fn clone(&self) -> (r: TypeSignature)
        ensures
            r@ == self@,
        decreases self,
    {
        match self {
            TypeSignature::Void => TypeSignature::Void,
            TypeSignature::Int => TypeSignature::Int,
            TypeSignature::Bool => TypeSignature::Bool,
            TypeSignature::Buffer(max_len) => TypeSignature::Buffer(*max_len),
            TypeSignature::Principal => TypeSignature::Principal,
            TypeSignature::Tuple(types) => {
                let mut copy: Vec<(String, TypeSignature)> = Vec::new();
                let mut i: usize = 0;
                while i < types.len()
                    invariant
                        0 <= i <= types.len(),
                        self == TypeSignature::Tuple(*types),
                        copy.len() == i,
                        forall|j: int|
                            0 <= j < i ==> (#[trigger] copy@[j]).0@ == types@[j].0@ && copy@[j].1@
                                == types@[j].1@,
                    decreases types.len() - i,
                {
                    assert(decreases_to!(*self => self->Tuple_0[i as int].1));
                    copy.push((types[i].0.clone(), types[i].1.clone()));
                    i = i + 1;
                }
                let r = TypeSignature::Tuple(copy);
                assert(r@->Tuple_0 =~= self@->Tuple_0);
                r
            },
        }
    }
}

/// The named, ordered fields of a tuple type: the form in which a map's key and value
/// schemas are given.
#[derive(Debug)]
pub struct TupleTypeSignature {
    pub fields: Vec<(String, TypeSignature)>,
}

impl TupleTypeSignature {
    /// The signature that admits exactly the tuples of this shape.
    pub open spec fn signature(&self) -> TypeSignatureView {
        TypeSignature::Tuple(self.fields)@
    }

    /// The tuple shape with the given fields, in the given order.
    pub fn new(fields: Vec<(String, TypeSignature)>) -> (r: TupleTypeSignature)
        ensures
            r.fields == fields,
    {
        TupleTypeSignature { fields }
    }

    /// Turns the tuple shape into a general type signature.
    pub fn into_signature(self) -> (r: TypeSignature)
        ensures
            r@ == self.signature(),
    {
        TypeSignature::Tuple(self.fields)
    }
}

} // verus!
