//! The structured-value tree: the generic target that source values are
//! rendered into before they are reshaped into a configuration dictionary.

use vstd::prelude::*;
use vstd::string::StrSliceExecFns;
use vstd::string::StringExecFns;

verus! {

broadcast use vstd::std_specs::vec::group_vec_axioms, vstd::seq::group_seq_axioms;

/// A machine integer carried by a structured value, tagged with its width and
/// signedness so that a round trip through the tree preserves the source type.
#[derive(Clone, Copy, Debug, PartialEq, Eq, Structural)]
pub enum Num {
    I8(i8),
    I16(i16),
    I32(i32),
    I64(i64),
    I128(i128),
    ISize(isize),
    U8(u8),
    U16(u16),
    U32(u32),
    U64(u64),
    U128(u128),
    USize(usize),
}

/// A structured value: the recursive sum of the scalar, sequence and
/// dictionary shapes a serialized source value can take.
#[derive(Debug, PartialEq)]
pub enum Value {
    Null,
    Bool(bool),
    Num(Num),
    Str(String),
    Array(Vec<Value>),
    Dict(Dict),
}

/// An ordered dictionary from string keys to structured values. Insertion
/// order is preserved and keys are unique within one dictionary.
#[derive(Debug, PartialEq)]
pub struct Dict {
    entries: Vec<(String, Value)>,
}

/// The mathematical model of a structured value: strings become sequences of
/// characters, arrays become sequences, dictionaries become ordered sequences
/// of key-value pairs.
pub enum Val {
    Null,
    Bool(bool),
    Num(Num),
    Str(Seq<char>),
    Arr(Seq<Val>),
    Dict(Seq<(Seq<char>, Val)>),
}

impl Value {
    /// The mathematical value this structured value stands for.
    pub open spec fn model(self) -> Val
        decreases self,
    {
        match self {
            Value::Null => Val::Null,
            Value::Bool(b) => Val::Bool(b),
            Value::Num(n) => Val::Num(n),
            Value::Str(s) => Val::Str(s@),
            Value::Array(a) => Val::Arr(arr_model(a@)),
            Value::Dict(d) => Val::Dict(d.model()),
        }
    }
}

/// The models of the elements of a sequence of structured values.
pub open spec fn arr_model(s: Seq<Value>) -> Seq<Val>
    decreases s,
{
    Seq::new(
        s.len(),
        |i: int|
            if 0 <= i < s.len() {
                s[i].model()
            } else {
                Val::Null
            },
    )
}

/// The models of a sequence of key-value entries.
pub open spec fn entries_model(es: Seq<(String, Value)>) -> Seq<(Seq<char>, Val)>
    decreases es,
{
    Seq::new(
        es.len(),
        |i: int|
            if 0 <= i < es.len() {
                (es[i].0@, es[i].1.model())
            } else {
                (Seq::<char>::empty(), Val::Null)
            },
    )
}

impl Dict {
    /// The ordered sequence of key-value bindings this dictionary holds.
    pub closed spec fn model(self) -> Seq<(Seq<char>, Val)>
        decreases self,
    {
        entries_model(self.entries@)
    }
}

impl View for Value {
    type V = Val;

    open spec fn view(&self) -> Val {
        self.model()
    }
}

impl View for Dict {
    type V = Seq<(Seq<char>, Val)>;

    open spec fn view(&self) -> Seq<(Seq<char>, Val)> {
        self.model()
    }
}

/// No two entries of the sequence share a key.
pub open spec fn keys_unique(es: Seq<(Seq<char>, Val)>) -> bool {
    forall|i: int, j: int| 0 <= i < j < es.len() ==> es[i].0 != es[j].0
}

/// What inserting a binding into a dictionary yields: the value is replaced
/// in place when the key is present, and appended at the end otherwise.
pub open spec fn dict_insert(es: Seq<(Seq<char>, Val)>, k: Seq<char>, v: Val) -> Seq<
    (Seq<char>, Val),
> {
    if exists|i: int| 0 <= i < es.len() && es[i].0 == k {
        es.update(choose|i: int| 0 <= i < es.len() && es[i].0 == k, (k, v))
    } else {
        es.push((k, v))
    }
}

/// The binding a dictionary holds for a key, if any.
pub open spec fn dict_get(es: Seq<(Seq<char>, Val)>, k: Seq<char>) -> Option<Val> {
    if exists|i: int| 0 <= i < es.len() && es[i].0 == k {
        Some(es[choose|i: int| 0 <= i < es.len() && es[i].0 == k].1)
    } else {
        None
    }
}

/// A structured value is well formed when every dictionary inside it has
/// unique keys.
pub open spec fn val_wf(v: Val) -> bool
    decreases v,
{
    match v {
        Val::Arr(s) => forall|i: int| 0 <= i < s.len() ==> val_wf(#[trigger] s[i]),
        Val::Dict(es) => keys_unique(es) && forall|i: int|
            0 <= i < es.len() ==> val_wf(#[trigger] es[i].1),
        _ => true,
    }
}

/// The name of a structured value's shape, as carried in a shape-mismatch
/// error or in a descriptor's metadata.
pub open spec fn kind_of(v: Val) -> Seq<char> {
    match v {
        Val::Null => "null"@,
        Val::Bool(_) => "boolean"@,
        Val::Num(_) => "integer"@,
        Val::Str(_) => "string"@,
        Val::Arr(_) => "array"@,
        Val::Dict(_) => "map"@,
    }
}

impl Dict {
    /// A dictionary is well formed when its keys are unique.
    pub open spec fn wf(self) -> bool {
        keys_unique(self@)
    }

    /// Creates an empty dictionary.
    pub fn new() -> (d: Dict)
        ensures
            d@ == Seq::<(Seq<char>, Val)>::empty(),
            d.wf(),
    {
        let d = Dict { entries: Vec::new() };
        proof {
            assert(d@ =~= Seq::<(Seq<char>, Val)>::empty());
        }
        d
    }

    /// The number of entries.
    pub fn len(&self) -> (n: usize)
        ensures
            n == self@.len(),
    {
        self.entries.len()
    }

    /// The binding held for `key`, if any.
    pub fn get(&self, key: &str) -> (r: Option<&Value>)
        requires
            self.wf(),
        ensures
            match r {
                Some(v) => dict_get(self@, key@) == Some(v@),
                None => dict_get(self@, key@) is None,
            },
    {
        let mut j: usize = 0;
        while j < self.entries.len()
            invariant
                self.wf(),
                j <= self.entries.len(),
                self.entries.len() == self@.len(),
                forall|t: int| 0 <= t < j ==> self@[t].0 != key@,
            decreases self.entries.len() - j,
        {
            proof {
                assert(self@[j as int] == (self.entries@[j as int].0@, self.entries@[j as int].1@));
            }
            if str_eq(self.entries[j].0.as_str(), key) {
                let ghost w = choose|i: int| 0 <= i < self@.len() && self@[i].0 == key@;
                proof {
                    assert(self@[j as int].0 == key@);
                    assert(w == j as int);
                }
                return Some(&self.entries[j].1);
            }
            j += 1;
        }
        None
    }

    /// Binds `key` to `value`: replaces the value in place when the key is
    /// already present, appends the new entry otherwise.
    pub fn insert(&mut self, key: String, value: Value)
        requires
            old(self).wf(),
        ensures
            final(self)@ == dict_insert(old(self)@, key@, value@),
            final(self).wf(),
    {
        let ghost es = self@;
        let mut j: usize = 0;
        while j < self.entries.len()
            invariant
                self@ == es,
                es == old(self)@,
                keys_unique(es),
                j <= self.entries.len(),
                self.entries.len() == es.len(),
                forall|t: int| 0 <= t < j ==> es[t].0 != key@,
            decreases self.entries.len() - j,
        {
            proof {
                assert(es[j as int] == (self.entries@[j as int].0@, self.entries@[j as int].1@));
            }
            if self.entries[j].0 == key {
                self.entries[j] = (key, value);
                proof {
                    assert(self@ =~= es.update(j as int, (key@, value@)));
                    let w = choose|i: int| 0 <= i < es.len() && es[i].0 == key@;
                    assert(es[w].0 == key@);
                    assert(w == j as int);
                    assert(keys_unique(self@)) by {
                        assert forall|x: int, y: int|
                            0 <= x < y < self@.len() implies self@[x].0 != self@[y].0 by {
                            assert(self@[x].0 == if x == j as int {
                                key@
                            } else {
                                es[x].0
                            });
                            assert(self@[y].0 == if y == j as int {
                                key@
                            } else {
                                es[y].0
                            });
                        }
                    }
                }
                return ;
            }
            j += 1;
        }
        self.entries.push((key, value));
        proof {
            assert(self@ =~= es.push((key@, value@)));
            assert(!(exists|i: int| 0 <= i < es.len() && es[i].0 == key@));
            assert(keys_unique(self@)) by {
                assert forall|x: int, y: int|
                    0 <= x < y < self@.len() implies self@[x].0 != self@[y].0 by {
                    assert(self@[x] == es.push((key@, value@))[x]);
                    assert(self@[y] == es.push((key@, value@))[y]);
                }
            }
        }
    }
}

impl Value {
    /// The name of this value's shape, for diagnostics.
    pub fn kind_name(&self) -> (r: String)
        ensures
            r@ == kind_of(self@),
    {
        match self {
            Value::Null => String::from_str("null"),
            Value::Bool(_) => String::from_str("boolean"),
            Value::Num(_) => String::from_str("integer"),
            Value::Str(_) => String::from_str("string"),
            Value::Array(_) => String::from_str("array"),
            Value::Dict(_) => String::from_str("map"),
        }
    }

    /// The dictionary this value holds, or `None` when the value is not
    /// dictionary-shaped.
    pub fn into_dict(self) -> (r: Option<Dict>)
        ensures
            r is Some <==> self is Dict,
            self matches Value::Dict(d) ==> r == Some(d),
    {
        match self {
            Value::Dict(d) => Some(d),
            _ => None,
        }
    }
}

/// Whether two string slices hold the same characters.
pub fn str_eq(a: &str, b: &str) -> (r: bool)
    ensures
        r == (a@ == b@),
{
    let n = a.unicode_len();
    if n != b.unicode_len() {
        return false;
    }
    let mut i: usize = 0;
    while i < n
        invariant
            i <= n,
            n == a@.len(),
            n == b@.len(),
            forall|k: int| 0 <= k < i ==> a@[k] == b@[k],
        decreases n - i,
    {
        if a.get_char(i) != b.get_char(i) {
            return false;
        }
        i += 1;
    }
    proof {
        assert(a@ =~= b@);
    }
    true
}

impl Clone for Value {
    /// A deep copy: the copy has the same mathematical value as the original.
    #[verifier::loop_isolation(false)]
    fn clone(&self) -> (r: Self)
        ensures
            r@ == self@,
        decreases self,
    {
        match self {
            Value::Null => Value::Null,
            Value::Bool(b) => Value::Bool(*b),
            Value::Num(n) => Value::Num(*n),
            Value::Str(s) => Value::Str(s.clone()),
            Value::Array(a) => {
                let mut out: Vec<Value> = Vec::new();
                let mut i: usize = 0;
                while i < a.len()
                    invariant
                        i <= a.len(),
                        out@.len() == i,
                        forall|k: int| 0 <= k < i ==> out@[k]@ == a@[k]@,
                    decreases a.len() - i,
                {
                    let e = a[i].clone();
                    out.push(e);
                    i += 1;
                }
                let r = Value::Array(out);
                proof {
                    assert(arr_model(out@) =~= arr_model(a@));
                }
                r
            },
            Value::Dict(d) => Value::Dict(d.clone()),
        }
    }
}

impl Clone for Dict {
    /// A deep copy: the copy holds the same bindings as the original.
    fn clone(&self) -> (r: Self)
        ensures
            r@ == self@,
        decreases self,
    {
        let mut out: Vec<(String, Value)> = Vec::new();
        let mut i: usize = 0;
        while i < self.entries.len()
            invariant
                i <= self.entries.len(),
                out@.len() == i,
                forall|k: int|
                    0 <= k < i ==> out@[k].0@ == self.entries@[k].0@ && out@[k].1@
                        == self.entries@[k].1@,
            decreases self.entries.len() - i,
        {
            let key = self.entries[i].0.clone();
            let val = self.entries[i].1.clone();
            out.push((key, val));
            i += 1;
        }
        let r = Dict { entries: out };
        proof {
            assert(entries_model(out@) =~= entries_model(self.entries@));
        }
        r
    }
}

} // verus!
