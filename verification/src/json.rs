//! A minimal model of the structured records the platform API returns. No
//! schema is imposed: fields are looked up on demand, and a lookup yields a
//! value only when the field is present and has the expected shape, exactly
//! as the callers consume them.

use vstd::prelude::*;

use crate::text::str_eq;

verus! {

/// One structured record (or part of one) returned by the platform API.
/// Numbers outside the signed 64-bit integers are carried opaquely as their
/// literal text and never consumed by the core's logic.
#[derive(Debug)]
pub enum Json {
    Null,
    Bool(bool),
    Int(i64),
    Num(String),
    Str(String),
    Arr(Vec<Json>),
    Obj(Vec<(String, Json)>),
}

/// The value of the first field named `key`, if any.
pub open spec fn field_lookup(fields: Seq<(String, Json)>, key: Seq<char>) -> Option<Json>
    decreases fields.len(),
{
    if fields.len() == 0 {
        None
    } else if fields[0].0@ == key {
        Some(fields[0].1)
    } else {
        field_lookup(fields.drop_first(), key)
    }
}

pub open spec fn spec_get(j: Json, key: Seq<char>) -> Option<Json> {
    match j {
        Json::Obj(fields) => field_lookup(fields@, key),
        _ => None,
    }
}

pub open spec fn spec_get_string(j: Json, key: Seq<char>) -> Option<Seq<char>> {
    match spec_get(j, key) {
        Some(Json::Str(s)) => Some(s@),
        _ => None,
    }
}

pub open spec fn spec_get_int(j: Json, key: Seq<char>) -> Option<i64> {
    match spec_get(j, key) {
        Some(Json::Int(n)) => Some(n),
        _ => None,
    }
}

pub open spec fn spec_get_array(j: Json, key: Seq<char>) -> Option<Seq<Json>> {
    match spec_get(j, key) {
        Some(Json::Arr(items)) => Some(items@),
        _ => None,
    }
}

/// Skipping a prefix of fields that all miss `key` does not change the
/// lookup.
proof fn lemma_lookup_skip_misses(fields: Seq<(String, Json)>, key: Seq<char>, i: int)
    requires
        0 <= i <= fields.len(),
        forall|j: int| 0 <= j < i ==> fields[j].0@ != key,
    ensures
        field_lookup(fields, key) == field_lookup(fields.subrange(i, fields.len() as int), key),
    decreases i,
{
    if i == 0 {
        assert(fields.subrange(0, fields.len() as int) =~= fields);
    } else {
        let rest = fields.drop_first();
        lemma_lookup_skip_misses(rest, key, i - 1);
        assert(rest.subrange(i - 1, rest.len() as int) =~= fields.subrange(
            i,
            fields.len() as int,
        ));
    }
}

impl Json {
    /// The value of the field named `key`, when this record is a mapping
    /// that has one.
    #[verifier::loop_isolation(false)]
    pub fn get<'a>(&'a self, key: &str) -> (r: Option<&'a Json>)
        ensures
            match r {
                Some(v) => spec_get(*self, key@) == Some(*v),
                None => spec_get(*self, key@) is None,
            },
    {
        match self {
            Json::Obj(fields) => {
                let n = fields.len();
                let mut i: usize = 0;
                while i < n
                    invariant
                        n == fields@.len(),
                        i <= n,
                        forall|j: int| 0 <= j < i ==> fields@[j].0@ != key@,
                    decreases n - i,
                {
                    if str_eq(fields[i].0.as_str(), key) {
                        proof {
                            lemma_lookup_skip_misses(fields@, key@, i as int);
                            assert(fields@.subrange(i as int, n as int)[0] == fields@[i as int]);
                        }
                        return Some(&fields[i].1);
                    }
                    i += 1;
                }
                proof {
                    lemma_lookup_skip_misses(fields@, key@, n as int);
                    assert(fields@.subrange(n as int, n as int).len() == 0);
                }
                None
            },
            _ => None,
        }
    }

    /// The string under `key`, when present and a string.
    pub fn get_string(&self, key: &str) -> (r: Option<String>)
        ensures
            match r {
                Some(s) => spec_get_string(*self, key@) == Some(s@),
                None => spec_get_string(*self, key@) is None,
            },
    {
        match self.get(key) {
            Some(Json::Str(s)) => Some(s.clone()),
            _ => None,
        }
    }

    /// The signed 64-bit integer under `key`, when present and such an
    /// integer.
    pub fn get_int(&self, key: &str) -> (r: Option<i64>)
        ensures
            r == spec_get_int(*self, key@),
    {
        match self.get(key) {
            Some(Json::Int(n)) => Some(*n),
            _ => None,
        }
    }

    /// The array under `key`, when present and an array.
    pub fn get_array<'a>(&'a self, key: &str) -> (r: Option<&'a Vec<Json>>)
        ensures
            match r {
                Some(v) => spec_get_array(*self, key@) == Some(v@),
                None => spec_get_array(*self, key@) is None,
            },
    {
        match self.get(key) {
            Some(Json::Arr(items)) => Some(items),
            _ => None,
        }
    }

    /// The array under `key`, taken out of the record by value; the rest of
    /// the record is dropped.
    #[verifier::loop_isolation(false)]
    pub fn take_array(self, key: &str) -> (r: Option<Vec<Json>>)
        ensures
            match r {
                Some(v) => spec_get_array(self, key@) == Some(v@),
                None => spec_get_array(self, key@) is None,
            },
    {
        match self {
            Json::Obj(mut fields) => {
                let ghost orig = fields@;
                proof {
                    assert(spec_get(self, key@) == field_lookup(orig, key@));
                }
                let n = fields.len();
                let mut i: usize = 0;
                while i < n
                    invariant
                        fields@ == orig,
                        n == orig.len(),
                        i <= n,
                        forall|j: int| 0 <= j < i ==> orig[j].0@ != key@,
                    decreases n - i,
                {
                    if str_eq(fields[i].0.as_str(), key) {
                        proof {
                            lemma_lookup_skip_misses(orig, key@, i as int);
                            assert(orig.subrange(i as int, n as int)[0] == orig[i as int]);
                        }
                        let pair = fields.remove(i);
                        match pair.1 {
                            Json::Arr(items) => {
                                return Some(items);
                            },
                            _ => {
                                return None;
                            },
                        }
                    }
                    i += 1;
                }
                proof {
                    lemma_lookup_skip_misses(orig, key@, n as int);
                    assert(orig.subrange(n as int, n as int).len() == 0);
                }
                None
            },
            _ => None,
        }
    }
}

} // verus!
