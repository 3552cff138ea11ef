//! JSON values, as far as the answers of search backends and devices are read.

use crate::lists;
use crate::text;
use vstd::prelude::*;

verus! {

/// A JSON value. The keys of an object are distinct.
#[derive(Debug)]
pub enum Json {
    Null,
    Bool(bool),
    /// A number without fraction or exponent.
    Int(i128),
    /// Any other number.
    Float,
    Str(String),
    Array(Vec<Json>),
    Object(Vec<(String, Json)>),
}

/// The member has that key.
pub open spec fn keyed(key: Seq<char>) -> spec_fn((String, Json)) -> bool {
    |m: (String, Json)| m.0@ == key
}

/// The member of an object with a key.
pub open spec fn member(j: Json, key: Seq<char>) -> Option<Json> {
    match j {
        Json::Object(v) => match lists::position(v@, keyed(key)) {
            Some(i) => Some(v@[i].1),
            None => None,
        },
        _ => None,
    }
}

/// The text that a value is.
pub open spec fn as_text(j: Option<Json>) -> Option<Seq<char>> {
    match j {
        Some(Json::Str(s)) => Some(s@),
        _ => None,
    }
}

/// The truth value that a value is.
pub open spec fn as_truth(j: Option<Json>) -> Option<bool> {
    match j {
        Some(Json::Bool(b)) => Some(b),
        _ => None,
    }
}

/// The integer that a value is, within bounds.
pub open spec fn as_int(j: Option<Json>, least: int, most: int) -> Option<int> {
    match j {
        Some(Json::Int(n)) => if least <= n <= most {
            Some(n as int)
        } else {
            None
        },
        _ => None,
    }
}

/// The items of the list that a value is.
pub open spec fn as_list(j: Option<Json>) -> Option<Seq<Json>> {
    match j {
        Some(Json::Array(v)) => Some(v@),
        _ => None,
    }
}

/// The text of a member.
pub open spec fn member_text(j: Json, key: Seq<char>) -> Option<Seq<char>> {
    as_text(member(j, key))
}

/// The integer of a member, as far as it has 64 bits and a sign.
pub open spec fn member_int(j: Json, key: Seq<char>) -> Option<int> {
    as_int(member(j, key), i64::MIN as int, i64::MAX as int)
}

impl Json {
    /// The member of an object with a key.
    pub fn get(&self, key: &str) -> (r: Option<&Json>)
        ensures
            match r {
                Some(j) => member(*self, key@) == Some(*j),
                None => member(*self, key@) is None,
            },
    {
        match self {
            Json::Object(v) => {
                let mut i: usize = 0;
                while i < v.len()
                    invariant
                        i <= v.len(),
                        *self == Json::Object(*v),
                        forall|j: int| 0 <= j < i ==> !keyed(key@)(#[trigger] v@[j]),
                    decreases v.len() - i,
                {
                    if text::same_text(v[i].0.as_str(), key) {
                        proof {
                            lists::lemma_position(v@, keyed(key@), i as int);
                        }
                        return Some(&v[i].1);
                    }
                    i += 1;
                }
                proof {
                    lists::lemma_position_is(v@, keyed(key@));
                }
                None
            },
            _ => None,
        }
    }

    /// The text of a member.
    pub fn get_str(&self, key: &str) -> (r: Option<String>)
        ensures
            text::text_opt(r) == member_text(*self, key@),
    {
        match self.get(key) {
            Some(Json::Str(s)) => Some(text::copy(s.as_str())),
            _ => None,
        }
    }

    /// The truth value of a member.
    pub fn get_bool(&self, key: &str) -> (r: Option<bool>)
        ensures
            r == as_truth(member(*self, key@)),
    {
        match self.get(key) {
            Some(Json::Bool(b)) => Some(*b),
            _ => None,
        }
    }

    /// The integer of a member.
    pub fn get_i64(&self, key: &str) -> (r: Option<i64>)
        ensures
            match r {
                Some(n) => member_int(*self, key@) == Some(n as int),
                None => member_int(*self, key@) is None,
            },
    {
        match self.get(key) {
            Some(Json::Int(n)) => if i64::MIN as i128 <= *n && *n <= i64::MAX as i128 {
                Some(*n as i64)
            } else {
                None
            },
            _ => None,
        }
    }

    /// The natural number of a member.
    pub fn get_u64(&self, key: &str) -> (r: Option<u64>)
        ensures
            match r {
                Some(n) => as_int(member(*self, key@), 0, u64::MAX as int) == Some(n as int),
                None => as_int(member(*self, key@), 0, u64::MAX as int) is None,
            },
    {
        match self.get(key) {
            Some(Json::Int(n)) => if 0 <= *n && *n <= u64::MAX as i128 {
                Some(*n as u64)
            } else {
                None
            },
            _ => None,
        }
    }

    /// The items of a member.
    pub fn get_list(&self, key: &str) -> (r: Option<&Vec<Json>>)
        ensures
            match r {
                Some(v) => as_list(member(*self, key@)) == Some(v@),
                None => as_list(member(*self, key@)) is None,
            },
    {
        match self.get(key) {
            Some(Json::Array(v)) => Some(v),
            _ => None,
        }
    }
}

// ---------------------------------------------------------------- laws

/// The member with a key is found wherever it stands in an object.
pub proof fn law_member_is_found(j: Json, i: int)
    requires
        j is Object,
        0 <= i < j->Object_0@.len(),
        forall|k: int|
            0 <= k < i ==> (#[trigger] j->Object_0@[k]).0@ != j->Object_0@[i].0@,
    ensures
        member(j, j->Object_0@[i].0@) == Some(j->Object_0@[i].1),
{
    let v = j->Object_0@;
    let p = keyed(v[i].0@);
    assert forall|k: int| 0 <= k < i implies !p(#[trigger] v[k]) by {}
    assert(p(v[i]));
    assert(lists::is_first(v, p, i));
    lists::lemma_position(v, p, i);
}

/// A key that an object does not have finds nothing, and a value that is no object has no member.
pub proof fn law_member_is_missing(j: Json, key: Seq<char>)
    ensures
        j is Object && (forall|k: int|
            0 <= k < j->Object_0@.len() ==> (#[trigger] j->Object_0@[k]).0@ != key) ==> member(
            j,
            key,
        ) is None,
        !(j is Object) ==> member(j, key) is None,
{
    if j is Object {
        let v = j->Object_0@;
        let p = keyed(key);
        lists::lemma_position_is(v, p);
        if lists::position(v, p) is Some {
            let i = lists::position(v, p)->0;
            assert(p(v[i]));
        }
    }
}

/// Each kind of value is read as itself, and only as itself.
pub proof fn law_values_by_kind(j: Json, least: int, most: int)
    ensures
        as_text(None) is None,
        as_truth(None) is None,
        as_int(None, least, most) is None,
        as_list(None) is None,
        as_text(Some(j)) is Some <==> j is Str,
        j is Str ==> as_text(Some(j)) == Some(j->Str_0@),
        as_truth(Some(j)) is Some <==> j is Bool,
        j is Bool ==> as_truth(Some(j)) == Some(j->Bool_0),
        as_list(Some(j)) is Some <==> j is Array,
        j is Array ==> as_list(Some(j)) == Some(j->Array_0@),
        as_int(Some(j), least, most) is Some <==> j is Int && least <= j->Int_0 && j->Int_0 <= most,
        j is Int && least <= j->Int_0 && j->Int_0 <= most ==> as_int(Some(j), least, most) == Some(
            j->Int_0 as int,
        ),
{
}

/// A member is read by its kind, a number as far as it has 64 bits and a sign.
pub proof fn law_members_by_kind(j: Json, key: Seq<char>, s: String, n: i128)
    ensures
        member(j, key) == Some(Json::Str(s)) ==> member_text(j, key) == Some(s@),
        member(j, key) == Some(Json::Int(n)) && -0x8000_0000_0000_0000 <= n
            <= 0x7fff_ffff_ffff_ffff ==> member_int(j, key) == Some(n as int),
        member(j, key) == Some(Json::Int(n)) && !(-0x8000_0000_0000_0000 <= n
            <= 0x7fff_ffff_ffff_ffff) ==> member_int(j, key) is None,
        member(j, key) is None || !(member(j, key)->0 is Str) ==> member_text(j, key) is None,
        member(j, key) is None || !(member(j, key)->0 is Int) ==> member_int(j, key) is None,
{
}

} // verus!
