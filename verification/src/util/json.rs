use vstd::prelude::*;

use crate::names::owned;

verus! {

/// The value of the first pair of `fields` whose name is `key`.
pub open spec fn lookup<V>(fields: Seq<(String, V)>, key: Seq<char>) -> Option<V>
    decreases fields.len(),
{
    if fields.len() == 0 {
        None
    } else if fields[0].0@ == key {
        Some(fields[0].1)
    } else {
        lookup(fields.drop_first(), key)
    }
}

/// Looking a name up from position `i` on skips a pair with another name.
proof fn lemma_lookup_skip<V>(fields: Seq<(String, V)>, key: Seq<char>, i: int)
    requires
        0 <= i < fields.len(),
    ensures
        lookup(fields.skip(i), key) == if fields[i].0@ == key {
            Some(fields[i].1)
        } else {
            lookup(fields.skip(i + 1), key)
        },
{
    assert(fields.skip(i).drop_first() =~= fields.skip(i + 1));
    assert(fields.skip(i)[0] == fields[i]);
}

/// The pairs of `fields` not named `name`, in order.
pub open spec fn without_name<V>(fields: Seq<(String, V)>, name: Seq<char>) -> Seq<(String, V)>
    decreases fields.len(),
{
    if fields.len() == 0 {
        fields
    } else if fields[0].0@ == name {
        without_name(fields.drop_first(), name)
    } else {
        seq![fields[0]] + without_name(fields.drop_first(), name)
    }
}

/// Looking a name up in two lists joined finds it in the first if it is there.
pub proof fn lemma_lookup_append<V>(s: Seq<(String, V)>, t: Seq<(String, V)>, key: Seq<char>)
    ensures
        lookup(s + t, key) == match lookup(s, key) {
            Some(v) => Some(v),
            None => lookup(t, key),
        },
    decreases s.len(),
{
    if s.len() > 0 {
        assert((s + t).drop_first() =~= s.drop_first() + t);
        assert((s + t)[0] == s[0]);
        lemma_lookup_append(s.drop_first(), t, key);
    } else {
        assert(s + t =~= t);
    }
}

/// Dropping the pairs named `name` leaves no such pair and every other lookup as it was.
pub proof fn lemma_lookup_without<V>(fields: Seq<(String, V)>, name: Seq<char>, key: Seq<char>)
    ensures
        lookup(without_name(fields, name), key) == if key == name {
            None
        } else {
            lookup(fields, key)
        },
    decreases fields.len(),
{
    if fields.len() > 0 {
        lemma_lookup_without(fields.drop_first(), name, key);
        if fields[0].0@ != name {
            let rest = without_name(fields.drop_first(), name);
            assert((seq![fields[0]] + rest).drop_first() =~= rest);
            assert((seq![fields[0]] + rest)[0] == fields[0]);
        }
    }
}

/// Sets the value named `name`: drops the pairs of that name and adds the new pair at the end.
pub fn put_field<V>(fields: &mut Vec<(String, V)>, name: String, value: V)
    ensures
        final(fields)@ == without_name(old(fields)@, name@).push((name, value)),
        lookup(final(fields)@, name@) == Some(value),
        forall|k: Seq<char>| k != name@ ==> #[trigger] lookup(final(fields)@, k) == lookup(
            old(fields)@,
            k,
        ),
{
    let ghost all = fields@;
    let mut rest: Vec<(String, V)> = Vec::new();
    std::mem::swap(&mut rest, fields);
    assert(fields@ == Seq::<(String, V)>::empty());
    while rest.len() > 0
        invariant
            fields@ + without_name(rest@, name@) == without_name(all, name@),
        decreases rest@.len(),
    {
        let ghost before = rest@;
        let (n, v) = rest.remove(0);
        assert(rest@ =~= before.drop_first());
        let ghost fb = fields@;
        if n != name {
            fields.push((n, v));
            assert(fields@ + without_name(rest@, name@) =~= fb + without_name(before, name@));
        }
    }
    assert(fields@ =~= without_name(all, name@));
    let ghost kept = fields@;
    fields.push((name, value));
    proof {
        assert(fields@ =~= kept + seq![(name, value)]);
        lemma_lookup_append(kept, seq![(name, value)], name@);
        lemma_lookup_without(all, name@, name@);
        assert(seq![(name, value)][0] == (name, value));
        assert(seq![(name, value)].drop_first() =~= Seq::<(String, V)>::empty());
        assert forall|k: Seq<char>| k != name@ implies #[trigger] lookup(fields@, k) == lookup(
            all,
            k,
        ) by {
            lemma_lookup_append(kept, seq![(name, value)], k);
            lemma_lookup_without(all, name@, k);
            assert(seq![(name, value)].drop_first() =~= Seq::<(String, V)>::empty());
            assert(lookup(Seq::<(String, V)>::empty(), k) is None);
            assert(lookup(seq![(name, value)], k) is None);
        }
    }
}

/// Finds the value of the first pair named `key`.
pub fn find_field<'a, V>(fields: &'a Vec<(String, V)>, key: &str) -> (r: Option<&'a V>)
    ensures
        match r {
            Some(v) => lookup(fields@, key@) == Some(*v),
            None => lookup(fields@, key@) is None,
        },
{
    let name = owned(key);
    let mut i: usize = 0;
    assert(fields@.skip(0) =~= fields@);
    while i < fields.len()
        invariant
            0 <= i <= fields@.len(),
            name@ == key@,
            lookup(fields@, key@) == lookup(fields@.skip(i as int), key@),
        decreases fields@.len() - i,
    {
        proof {
            lemma_lookup_skip(fields@, key@, i as int);
        }
        if fields[i].0 == name {
            return Some(&fields[i].1);
        }
        i += 1;
    }
    assert(fields@.skip(i as int).len() == 0);
    None
}

/// A JSON value, as serde_json reads it: numbers keep serde_json's three kinds, and an object
/// keeps its members in the order they were read.
#[derive(Debug, PartialEq, Eq)]
pub enum JsonValue {
    Null,
    Bool(bool),
    /// A number that fits in `u64`.
    PosInt(u64),
    /// A negative number that fits in `i64`.
    NegInt(i64),
    /// Any other number, by the text serde_json prints for it.
    Float(String),
    Str(String),
    Array(Vec<JsonValue>),
    Object(Vec<(String, JsonValue)>),
}

/// Two equal JSON values: the same kind, the same scalar, and, for an array or an object,
/// equal elements or the same member names with equal values, in the same order.
pub open spec fn same_json(a: JsonValue, b: JsonValue) -> bool
    decreases a,
{
    match (a, b) {
        (JsonValue::Null, JsonValue::Null) => true,
        (JsonValue::Bool(x), JsonValue::Bool(y)) => x == y,
        (JsonValue::PosInt(x), JsonValue::PosInt(y)) => x == y,
        (JsonValue::NegInt(x), JsonValue::NegInt(y)) => x == y,
        (JsonValue::Float(x), JsonValue::Float(y)) => x@ == y@,
        (JsonValue::Str(x), JsonValue::Str(y)) => x@ == y@,
        (JsonValue::Array(x), JsonValue::Array(y)) => x@.len() == y@.len() && forall|i: int|
            0 <= i < x@.len() ==> same_json(#[trigger] x[i], y[i]),
        (JsonValue::Object(x), JsonValue::Object(y)) => x@.len() == y@.len() && forall|i: int|
            0 <= i < x@.len() ==> (#[trigger] x[i]).0@ == y[i].0@ && same_json(x[i].1, y[i].1),
        _ => false,
    }
}

/// Copies a JSON value, member by member.
pub fn copy_json(v: &JsonValue) -> (r: JsonValue)
    ensures
        same_json(r, *v),
    decreases v,
{
    match v {
        JsonValue::Null => JsonValue::Null,
        JsonValue::Bool(b) => JsonValue::Bool(*b),
        JsonValue::PosInt(u) => JsonValue::PosInt(*u),
        JsonValue::NegInt(i) => JsonValue::NegInt(*i),
        JsonValue::Float(s) => JsonValue::Float(s.clone()),
        JsonValue::Str(s) => JsonValue::Str(s.clone()),
        JsonValue::Array(a) => {
            let mut out: Vec<JsonValue> = Vec::new();
            let mut i: usize = 0;
            while i < a.len()
                invariant
                    0 <= i <= a@.len(),
                    *v == JsonValue::Array(*a),
                    out@.len() == i,
                    forall|k: int| 0 <= k < i ==> same_json(#[trigger] out@[k], a@[k]),
                decreases a@.len() - i,
            {
                proof {
                    let gv = *v;
                    assert(gv == JsonValue::Array(*a));
                    assert(decreases_to!(gv => gv->Array_0));
                    vstd::std_specs::vec::axiom_vec_index_decreases(*a, i as int);
                }
                let e = copy_json(&a[i]);
                out.push(e);
                i += 1;
            }
            JsonValue::Array(out)
        },
        JsonValue::Object(o) => {
            let mut out: Vec<(String, JsonValue)> = Vec::new();
            let mut i: usize = 0;
            while i < o.len()
                invariant
                    0 <= i <= o@.len(),
                    *v == JsonValue::Object(*o),
                    out@.len() == i,
                    forall|k: int|
                        0 <= k < i ==> (#[trigger] out@[k]).0@ == o@[k].0@ && same_json(
                            out@[k].1,
                            o@[k].1,
                        ),
                decreases o@.len() - i,
            {
                proof {
                    let gv = *v;
                    assert(gv == JsonValue::Object(*o));
                    assert(decreases_to!(gv => gv->Object_0));
                    vstd::std_specs::vec::axiom_vec_index_decreases(*o, i as int);
                    assert(decreases_to!(o[i as int] => o[i as int].1));
                }
                let e = copy_json(&o[i].1);
                out.push((o[i].0.clone(), e));
                i += 1;
            }
            JsonValue::Object(out)
        },
    }
}

impl Clone for JsonValue {
    fn clone(&self) -> (r: Self)
        ensures
            same_json(r, *self),
    {
        copy_json(self)
    }
}

impl JsonValue {
    /// The member of an object named `key`; nothing for a value that is no object.
    pub open spec fn member(self, key: Seq<char>) -> Option<JsonValue> {
        match self {
            JsonValue::Object(fields) => lookup(fields@, key),
            _ => None,
        }
    }

    /// The string a value holds, if it is a string.
    pub open spec fn str_of(self) -> Option<Seq<char>> {
        match self {
            JsonValue::Str(s) => Some(s@),
            _ => None,
        }
    }

    /// The value as an `i64`, if it is an integer in that range.
    pub open spec fn i64_of(self) -> Option<i64> {
        match self {
            JsonValue::PosInt(u) => if u <= i64::MAX {
                Some(u as i64)
            } else {
                None
            },
            JsonValue::NegInt(i) => Some(i),
            _ => None,
        }
    }

    /// The string of a string value.
    pub fn as_str(&self) -> (r: Option<&String>)
        ensures
            match r {
                Some(s) => self.str_of() == Some(s@),
                None => self.str_of() is None,
            },
    {
        match self {
            JsonValue::Str(s) => Some(s),
            _ => None,
        }
    }

    /// The elements of an array value.
    pub fn as_array(&self) -> (r: Option<&Vec<JsonValue>>)
        ensures
            match r {
                Some(a) => *self == JsonValue::Array(*a),
                None => !(self is Array),
            },
    {
        match self {
            JsonValue::Array(a) => Some(a),
            _ => None,
        }
    }

    /// The members of an object value.
    pub fn as_object(&self) -> (r: Option<&Vec<(String, JsonValue)>>)
        ensures
            match r {
                Some(o) => *self == JsonValue::Object(*o),
                None => !(self is Object),
            },
    {
        match self {
            JsonValue::Object(o) => Some(o),
            _ => None,
        }
    }

    /// The member named `key` of an object value.
    pub fn get(&self, key: &str) -> (r: Option<&JsonValue>)
        ensures
            match r {
                Some(v) => self.member(key@) == Some(*v),
                None => self.member(key@) is None,
            },
    {
        match self {
            JsonValue::Object(o) => find_field(o, key),
            _ => None,
        }
    }

    /// The value as an `i64`, when it is an integer that fits.
    pub fn as_i64(&self) -> (r: Option<i64>)
        ensures
            r == self.i64_of(),
    {
        match self {
            JsonValue::PosInt(u) => if *u <= 9223372036854775807u64 {
                Some(*u as i64)
            } else {
                None
            },
            JsonValue::NegInt(i) => Some(*i),
            _ => None,
        }
    }
}

} // verus!
