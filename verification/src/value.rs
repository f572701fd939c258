//! MessagePack values as neovim sends them, and reading string-keyed maps of them.
use vstd::prelude::*;

use crate::text::str_eq;

verus! {

/// A MessagePack value; `Table` is a map, kept as its key-value pairs. Integers are kept as rmpv keeps them: `PosInt` for
/// values from zero up, `NegInt` for negative ones. Floating-point values are
/// carried as `Float` with the bits of their IEEE 754 double encoding, which no
/// logic here reads.
#[derive(Debug)]
pub enum Value {
    Nil,
    Boolean(bool),
    PosInt(u64),
    NegInt(i64),
    Float(u64),
    Str(String),
    /// A MessagePack string whose bytes are not valid UTF-8.
    BadStr(Vec<u8>),
    Binary(Vec<u8>),
    Array(Vec<Value>),
    Table(Vec<(Value, Value)>),
    Ext(i8, Vec<u8>),
}

impl Value {
    pub open spec fn spec_as_str(&self) -> Option<Seq<char>> {
        match self {
            Value::Str(s) => Some(s@),
            _ => None,
        }
    }

    pub open spec fn spec_as_u64(&self) -> Option<u64> {
        match self {
            Value::PosInt(n) => Some(*n),
            _ => None,
        }
    }

    pub open spec fn spec_as_i64(&self) -> Option<i64> {
        match self {
            Value::PosInt(n) => if *n <= i64::MAX as u64 { Some(*n as i64) } else { None },
            Value::NegInt(n) => Some(*n),
            _ => None,
        }
    }

    pub open spec fn spec_as_bool(&self) -> Option<bool> {
        match self {
            Value::Boolean(b) => Some(*b),
            _ => None,
        }
    }

    pub fn as_str(&self) -> (r: Option<&str>)
        ensures
            r is Some <==> self.spec_as_str() is Some,
            r matches Some(s) ==> s@ == self.spec_as_str()->0,
    {
        match self {
            Value::Str(s) => Some(s.as_str()),
            _ => None,
        }
    }

    pub fn as_u64(&self) -> (r: Option<u64>)
        ensures
            r == self.spec_as_u64(),
    {
        match self {
            Value::PosInt(n) => Some(*n),
            _ => None,
        }
    }

    pub fn as_i64(&self) -> (r: Option<i64>)
        ensures
            r == self.spec_as_i64(),
    {
        match self {
            Value::PosInt(n) => if *n <= i64::MAX as u64 {
                Some(*n as i64)
            } else {
                None
            },
            Value::NegInt(n) => Some(*n),
            _ => None,
        }
    }

    pub fn as_bool(&self) -> (r: Option<bool>)
        ensures
            r == self.spec_as_bool(),
    {
        match self {
            Value::Boolean(b) => Some(*b),
            _ => None,
        }
    }

    pub fn as_array(&self) -> (r: Option<&Vec<Value>>)
        ensures
            r is Some <==> self is Array,
            r matches Some(a) ==> self == Value::Array(*a),
    {
        match self {
            Value::Array(a) => Some(a),
            _ => None,
        }
    }

    pub fn as_map(&self) -> (r: Option<&Vec<(Value, Value)>>)
        ensures
            r is Some <==> self is Table,
            r matches Some(m) ==> self == Value::Table(*m),
    {
        match self {
            Value::Table(m) => Some(m),
            _ => None,
        }
    }
}

/// A map from string keys to values, read from a MessagePack map. When a key
/// occurs more than once, the last occurrence counts.
pub struct AttrsMap<'a> {
    pub entries: Vec<(&'a str, &'a Value)>,
}

/// Index of the last entry with key `key`.
pub open spec fn last_index_of<'a>(entries: Seq<(&'a str, &'a Value)>, key: Seq<char>) -> Option<int>
    decreases entries.len(),
{
    if entries.len() == 0 {
        None
    } else if entries.last().0@ == key {
        Some(entries.len() - 1)
    } else {
        last_index_of(entries.drop_last(), key)
    }
}

/// The value bound to `key` in a map read from `pairs`, if every key is a string.
pub open spec fn attrs_lookup(pairs: Seq<(Value, Value)>, key: Seq<char>) -> Option<Value>
    decreases pairs.len(),
{
    if pairs.len() == 0 {
        None
    } else if pairs.last().0.spec_as_str() == Some(key) {
        Some(pairs.last().1)
    } else {
        attrs_lookup(pairs.drop_last(), key)
    }
}

/// Every key of the pairs is a string.
pub open spec fn all_keys_str(pairs: Seq<(Value, Value)>) -> bool {
    forall|i: int| 0 <= i < pairs.len() ==> (#[trigger] pairs[i]).0.spec_as_str() is Some
}

impl<'a> AttrsMap<'a> {
    /// The value bound to `key`: that of its last entry.
    pub open spec fn spec_get(&self, key: Seq<char>) -> Option<Value> {
        match last_index_of(self.entries@, key) {
            Some(i) => Some(*self.entries@[i].1),
            None => None,
        }
    }

    /// The map reads as `pairs` does.
    pub open spec fn reads_as(&self, pairs: Seq<(Value, Value)>) -> bool {
        &&& self.entries@.len() == pairs.len()
        &&& forall|i: int|
            0 <= i < pairs.len() ==> #[trigger] pairs[i].0.spec_as_str() == Some(
                self.entries@[i].0@,
            ) && *self.entries@[i].1 == pairs[i].1
    }

    /// Reads a MessagePack map whose keys are strings; fails with
    /// "Can't convert map key to string" when a key is not one.
    pub fn from_pairs(pairs: &'a Vec<(Value, Value)>) -> (r: Result<AttrsMap<'a>, String>)
        ensures
            r is Ok <==> all_keys_str(pairs@),
            r matches Ok(m) ==> m.reads_as(pairs@),
            r matches Err(e) ==> e@ == "Can't convert map key to string"@,
    {
        let mut entries: Vec<(&'a str, &'a Value)> = Vec::new();
        let mut i: usize = 0;
        while i < pairs.len()
            invariant
                i <= pairs@.len(),
                entries@.len() == i,
                forall|j: int|
                    0 <= j < i ==> #[trigger] pairs@[j].0.spec_as_str() == Some(entries@[j].0@)
                        && *entries@[j].1 == pairs@[j].1,
            decreases pairs@.len() - i,
        {
            let p = &pairs[i];
            match p.0.as_str() {
                Some(key) => {
                    entries.push((key, &p.1));
                },
                None => {
                    return Err("Can't convert map key to string".to_owned());
                },
            }
            i = i + 1;
        }
        Ok(AttrsMap { entries })
    }

    /// The value of the last entry with key `key`.
    pub fn get(&self, key: &str) -> (r: Option<&'a Value>)
        ensures
            r is Some <==> self.spec_get(key@) is Some,
            r matches Some(v) ==> *v == self.spec_get(key@)->0,
    {
        let mut i = self.entries.len();
        proof {
            assert(self.entries@.take(i as int) =~= self.entries@);
        }
        while i > 0
            invariant
                i <= self.entries@.len(),
                last_index_of(self.entries@, key@) == last_index_of(self.entries@.take(i as int), key@),
            decreases i,
        {
            let e = self.entries[i - 1];
            proof {
                let t = self.entries@.take(i as int);
                assert(t.drop_last() =~= self.entries@.take(i - 1));
                assert(t.last() == self.entries@[i - 1]);
            }
            if str_eq(e.0, key) {
                return Some(e.1);
            }
            i = i - 1;
        }
        None
    }
}

/// Looking a key up in a map read from `pairs` gives what `attrs_lookup` says.
pub proof fn lemma_attrs_get<'a>(m: AttrsMap<'a>, pairs: Seq<(Value, Value)>, key: Seq<char>)
    requires
        m.reads_as(pairs),
    ensures
        m.spec_get(key) == attrs_lookup(pairs, key),
{
    lemma_attrs_get_seq(m.entries@, pairs, key);
}

proof fn lemma_attrs_get_seq<'a>(entries: Seq<(&'a str, &'a Value)>, pairs: Seq<(Value, Value)>, key: Seq<char>)
    requires
        entries.len() == pairs.len(),
        forall|i: int|
            0 <= i < pairs.len() ==> #[trigger] pairs[i].0.spec_as_str() == Some(entries[i].0@)
                && *entries[i].1 == pairs[i].1,
    ensures
        last_index_of(entries, key) is Some <==> attrs_lookup(pairs, key) is Some,
        attrs_lookup(pairs, key) is Some ==> 0 <= last_index_of(entries, key)->0 < entries.len()
            && *entries[last_index_of(entries, key)->0].1 == attrs_lookup(pairs, key)->0,
    decreases pairs.len(),
{
    if pairs.len() > 0 {
        let e2 = entries.drop_last();
        let p2 = pairs.drop_last();
        assert(pairs[pairs.len() - 1].0.spec_as_str() == Some(entries[pairs.len() - 1].0@));
        assert forall|i: int| 0 <= i < p2.len() implies #[trigger] p2[i].0.spec_as_str() == Some(e2[i].0@)
            && *e2[i].1 == p2[i].1 by {
            assert(p2[i] == pairs[i]);
            assert(e2[i] == entries[i]);
        }
        lemma_attrs_get_seq(e2, p2, key);
    }
}


/// The bits of an IEEE 754 double that is not a number.
pub open spec fn is_nan_bits(x: u64) -> bool {
    x & 0x7ff0_0000_0000_0000 == 0x7ff0_0000_0000_0000 && x & 0x000f_ffff_ffff_ffff != 0
}

/// The bits of a double that is zero, of either sign.
pub open spec fn is_zero_bits(x: u64) -> bool {
    x & 0x7fff_ffff_ffff_ffff == 0
}

/// Two doubles, given by their bits, are equal as numbers: no NaN equals
/// anything, the two zeros are equal, and other values are equal when their
/// bits are.
pub open spec fn float_bits_eq(x: u64, y: u64) -> bool {
    !is_nan_bits(x) && !is_nan_bits(y) && (x == y || (is_zero_bits(x) && is_zero_bits(y)))
}

/// Two values are equal: of the same kind with equal contents, element by
/// element; doubles compare as numbers.
pub open spec fn same_value(a: Value, b: Value) -> bool
    decreases a,
{
    match a {
        Value::Nil => b is Nil,
        Value::Boolean(x) => b matches Value::Boolean(y) && x == y,
        Value::PosInt(x) => b matches Value::PosInt(y) && x == y,
        Value::NegInt(x) => b matches Value::NegInt(y) && x == y,
        Value::Float(x) => b matches Value::Float(y) && float_bits_eq(x, y),
        Value::Str(x) => b matches Value::Str(y) && x@ == y@,
        Value::BadStr(x) => b matches Value::BadStr(y) && x@ == y@,
        Value::Binary(x) => b matches Value::Binary(y) && x@ == y@,
        Value::Ext(t, x) => b matches Value::Ext(u, y) && t == u && x@ == y@,
        Value::Array(x) => b matches Value::Array(y) && x@.len() == y@.len() && forall|i: int|
            0 <= i < x@.len() ==> same_value(#[trigger] x@[i], y@[i]),
        Value::Table(x) => b matches Value::Table(y) && x@.len() == y@.len() && forall|i: int|
            0 <= i < x@.len() ==> same_value((#[trigger] x@[i]).0, y@[i].0) && same_value(x@[i].1, y@[i].1),
    }
}

fn float_eq(x: u64, y: u64) -> (r: bool)
    ensures
        r == float_bits_eq(x, y),
{
    let x_nan = x & 0x7ff0_0000_0000_0000 == 0x7ff0_0000_0000_0000 && x & 0x000f_ffff_ffff_ffff != 0;
    let y_nan = y & 0x7ff0_0000_0000_0000 == 0x7ff0_0000_0000_0000 && y & 0x000f_ffff_ffff_ffff != 0;
    let zeros = x & 0x7fff_ffff_ffff_ffff == 0 && y & 0x7fff_ffff_ffff_ffff == 0;
    !x_nan && !y_nan && (x == y || zeros)
}

fn bytes_eq(x: &Vec<u8>, y: &Vec<u8>) -> (r: bool)
    ensures
        r == (x@ == y@),
{
    if x.len() != y.len() {
        return false;
    }
    let mut i: usize = 0;
    while i < x.len()
        invariant
            i <= x@.len(),
            x@.len() == y@.len(),
            forall|j: int| 0 <= j < i ==> x@[j] == y@[j],
        decreases x@.len() - i,
    {
        if x[i] != y[i] {
            return false;
        }
        i = i + 1;
    }
    proof {
        assert(x@ =~= y@);
    }
    true
}

/// Whether two values are equal (see `same_value`).
pub fn values_equal(a: &Value, b: &Value) -> (r: bool)
    ensures
        r == same_value(*a, *b),
    decreases a,
{
    match a {
        Value::Nil => match b {
            Value::Nil => true,
            _ => false,
        },
        Value::Boolean(x) => match b {
            Value::Boolean(y) => *x == *y,
            _ => false,
        },
        Value::PosInt(x) => match b {
            Value::PosInt(y) => *x == *y,
            _ => false,
        },
        Value::NegInt(x) => match b {
            Value::NegInt(y) => *x == *y,
            _ => false,
        },
        Value::Float(x) => match b {
            Value::Float(y) => float_eq(*x, *y),
            _ => false,
        },
        Value::Str(x) => match b {
            Value::Str(y) => str_eq(x.as_str(), y.as_str()),
            _ => false,
        },
        Value::BadStr(x) => match b {
            Value::BadStr(y) => bytes_eq(x, y),
            _ => false,
        },
        Value::Binary(x) => match b {
            Value::Binary(y) => bytes_eq(x, y),
            _ => false,
        },
        Value::Ext(t, x) => match b {
            Value::Ext(u, y) => *t == *u && bytes_eq(x, y),
            _ => false,
        },
        Value::Array(x) => match b {
            Value::Array(y) => {
                if x.len() != y.len() {
                    return false;
                }
                let mut i: usize = 0;
                while i < x.len()
                    invariant
                        i <= x@.len(),
                        x@.len() == y@.len(),
                        *a == Value::Array(*x),
                        *b == Value::Array(*y),
                        forall|j: int| 0 <= j < i ==> same_value(#[trigger] x@[j], y@[j]),
                    decreases x@.len() - i,
                {
                    proof {
                        assert(decreases_to!(*a => (*a)->Array_0));
                        assert(decreases_to!(*x => x@));
                        assert(decreases_to!(x@ => x@[i as int]));
                    }
                    if !values_equal(&x[i], &y[i]) {
                        return false;
                    }
                    i = i + 1;
                }
                true
            },
            _ => false,
        },
        Value::Table(x) => match b {
            Value::Table(y) => {
                if x.len() != y.len() {
                    return false;
                }
                let mut i: usize = 0;
                while i < x.len()
                    invariant
                        i <= x@.len(),
                        x@.len() == y@.len(),
                        *a == Value::Table(*x),
                        *b == Value::Table(*y),
                        forall|j: int| 0 <= j < i ==> same_value((#[trigger] x@[j]).0, y@[j].0) && same_value(
                            x@[j].1,
                            y@[j].1,
                        ),
                    decreases x@.len() - i,
                {
                    proof {
                        assert(decreases_to!(*a => (*a)->Table_0));
                        assert(decreases_to!(*x => x@));
                        assert(decreases_to!(x@ => x@[i as int]));
                        assert(decreases_to!(x@[i as int] => x@[i as int].0));
                        assert(decreases_to!(x@[i as int] => x@[i as int].1));
                    }
                    if !values_equal(&x[i].0, &y[i].0) || !values_equal(&x[i].1, &y[i].1) {
                        return false;
                    }
                    i = i + 1;
                }
                true
            },
            _ => false,
        },
    }
}

} // verus!
