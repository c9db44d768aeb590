//! A JSON document model: what the client sends to and reads from the server.
//!
//! Numbers keep the canonical text that a JSON encoder prints for them, so
//! that no floating-point value is ever held; objects keep their members in
//! order (the server's replies arrive with keys in ascending order).
use vstd::prelude::*;

use crate::text::{decimal, digit_char, str_eq, u64_to_string};

verus! {

/// A JSON value.
#[derive(Debug, PartialEq)]
pub enum Json {
    Null,
    Bool(bool),
    /// The number's canonical text (for instance `42`, `-3` or `1.5`).
    Number(String),
    Str(String),
    Array(Vec<Json>),
    Object(Vec<(String, Json)>),
}

/// The value of the first member of `m` named `key`.
pub open spec fn member_lookup(m: Seq<(String, Json)>, key: Seq<char>) -> Option<Json>
    decreases m.len(),
{
    if m.len() == 0 {
        None
    } else if m[0].0@ == key {
        Some(m[0].1)
    } else {
        member_lookup(m.drop_first(), key)
    }
}

/// The value of `n` written in decimal digits `s` (empty text is zero).
pub open spec fn digits_value(s: Seq<char>) -> nat
    decreases s.len(),
{
    if s.len() == 0 {
        0
    } else {
        digits_value(s.drop_last()) * 10 + ((s.last() as nat) - 48) as nat
    }
}

pub open spec fn is_digit(c: char) -> bool {
    '0' <= c && c <= '9'
}

pub open spec fn all_digits(s: Seq<char>) -> bool {
    forall|i: int| 0 <= i < s.len() ==> is_digit(#[trigger] s[i])
}

/// The unsigned integer a number's text denotes, when it denotes one that fits in 64 bits.
pub open spec fn number_text_u64(s: Seq<char>) -> Option<u64> {
    if s.len() > 0 && all_digits(s) && digits_value(s) <= u64::MAX {
        Some(digits_value(s) as u64)
    } else {
        None
    }
}

impl Json {
    /// Member `key` of an object (the first one of that name); `None` for a
    /// missing member or a value that is not an object.
    pub open spec fn spec_get(self, key: Seq<char>) -> Option<Json> {
        match self {
            Json::Object(m) => member_lookup(m@, key),
            _ => None,
        }
    }

    /// Element `i` of an array; `None` when out of range or not an array.
    pub open spec fn spec_at(self, i: int) -> Option<Json> {
        match self {
            Json::Array(v) => if 0 <= i < v@.len() {
                Some(v@[i])
            } else {
                None
            },
            _ => None,
        }
    }

    pub open spec fn spec_as_str(self) -> Option<Seq<char>> {
        match self {
            Json::Str(s) => Some(s@),
            _ => None,
        }
    }

    pub open spec fn spec_as_u64(self) -> Option<u64> {
        match self {
            Json::Number(t) => number_text_u64(t@),
            _ => None,
        }
    }

    pub open spec fn spec_as_bool(self) -> Option<bool> {
        match self {
            Json::Bool(b) => Some(b),
            _ => None,
        }
    }

    /// `self[key]` read as a string.
    pub open spec fn str_at(self, key: Seq<char>) -> Option<Seq<char>> {
        match self.spec_get(key) {
            Some(v) => v.spec_as_str(),
            None => None,
        }
    }

    /// `self[key]` read as an unsigned integer.
    pub open spec fn u64_at(self, key: Seq<char>) -> Option<u64> {
        match self.spec_get(key) {
            Some(v) => v.spec_as_u64(),
            None => None,
        }
    }

    /// Looks up member `key` of an object.
    pub fn get(&self, key: &str) -> (r: Option<&Json>)
        ensures
            match r {
                Some(v) => self.spec_get(key@) == Some(*v),
                None => self.spec_get(key@) is None,
            },
    {
        match self {
            Json::Object(m) => lookup(m, key),
            _ => None,
        }
    }

    /// Element `i` of an array.
    pub fn at(&self, i: usize) -> (r: Option<&Json>)
        ensures
            match r {
                Some(v) => self.spec_at(i as int) == Some(*v),
                None => self.spec_at(i as int) is None,
            },
    {
        match self {
            Json::Array(v) => {
                if i < v.len() {
                    Some(&v[i])
                } else {
                    None
                }
            },
            _ => None,
        }
    }

    pub fn as_str(&self) -> (r: Option<&str>)
        ensures
            match r {
                Some(s) => self.spec_as_str() == Some(s@),
                None => self.spec_as_str() is None,
            },
    {
        match self {
            Json::Str(s) => Some(s.as_str()),
            _ => None,
        }
    }

    pub fn as_bool(&self) -> (r: Option<bool>)
        ensures
            r == self.spec_as_bool(),
    {
        match self {
            Json::Bool(b) => Some(*b),
            _ => None,
        }
    }

    pub fn is_null(&self) -> (r: bool)
        ensures
            r == (*self is Null),
    {
        match self {
            Json::Null => true,
            _ => false,
        }
    }

    pub fn as_u64(&self) -> (r: Option<u64>)
        ensures
            r == self.spec_as_u64(),
    {
        match self {
            Json::Number(t) => parse_u64(t.as_str()),
            _ => None,
        }
    }

    /// `self[key].as_str()`.
    pub fn get_str(&self, key: &str) -> (r: Option<&str>)
        ensures
            match r {
                Some(s) => self.str_at(key@) == Some(s@),
                None => self.str_at(key@) is None,
            },
    {
        match self.get(key) {
            Some(v) => v.as_str(),
            None => None,
        }
    }

    /// `self[key].as_u64()`.
    pub fn get_u64(&self, key: &str) -> (r: Option<u64>)
        ensures
            r == self.u64_at(key@),
    {
        match self.get(key) {
            Some(v) => v.as_u64(),
            None => None,
        }
    }

    /// A JSON string holding a copy of `s`.
    pub fn from_str(s: &str) -> (r: Json)
        ensures
            r.spec_as_str() == Some(s@),
    {
        Json::Str(String::from_str(s))
    }

    /// A JSON number holding the unsigned integer `n`.
    pub fn from_u64(n: u64) -> (r: Json)
        ensures
            r.spec_as_u64() == Some(n),
            r matches Json::Number(t) && t@ == decimal(n as nat),
    {
        let t = u64_to_string(n);
        proof {
            lemma_decimal_digits(n as nat);
        }
        Json::Number(t)
    }

    /// A JSON array of strings.
    pub fn from_strs(items: &[String]) -> (r: Json)
        ensures
            str_items(r) == Some(crate::text::texts(items@)),
            r is Array,
            r->Array_0@.len() == items@.len(),
            forall|i: int|
                0 <= i < items@.len() ==> (#[trigger] r->Array_0@[i]).spec_as_str() == Some(
                    items@[i]@,
                ),
    {
        let mut out: Vec<Json> = Vec::new();
        let mut i: usize = 0;
        while i < items.len()
            invariant
                i <= items@.len(),
                out@.len() == i,
                forall|j: int|
                    0 <= j < i ==> (#[trigger] out@[j]).spec_as_str() == Some(items@[j]@),
            decreases items@.len() - i,
        {
            out.push(Json::from_str(items[i].as_str()));
            i = i + 1;
        }
        assert(str_items(Json::Array(out)) == Some(crate::text::texts(items@))) by {
            assert(out@.map_values(|e: Json| e->Str_0@) =~= crate::text::texts(items@));
        }
        Json::Array(out)
    }
}

/// The texts of an array whose items are all strings.
pub open spec fn str_items(j: Json) -> Option<Seq<Seq<char>>> {
    match j {
        Json::Array(v) => if forall|i: int| 0 <= i < v@.len() ==> (#[trigger] v@[i]) is Str {
            Some(v@.map_values(|e: Json| e->Str_0@))
        } else {
            None
        },
        _ => None,
    }
}

/// The member names of an object, in order (empty for other values).
pub open spec fn names_of(j: Json) -> Seq<Seq<char>> {
    match j {
        Json::Object(m) => m@.map_values(|e: (String, Json)| e.0@),
        _ => Seq::empty(),
    }
}

/// The names that an optional member contributes.
pub open spec fn opt_name(name: Seq<char>, present: bool) -> Seq<Seq<char>> {
    if present {
        seq![name]
    } else {
        Seq::empty()
    }
}

/// Looking up in a member list that gained a member of a new name.
pub proof fn lemma_lookup_push(m: Seq<(String, Json)>, key: String, value: Json, other: Seq<char>)
    requires
        forall|i: int| 0 <= i < m.len() ==> #[trigger] m[i].0@ != key@,
    ensures
        member_lookup(m.push((key, value)), key@) == Some(value),
        other != key@ ==> member_lookup(m.push((key, value)), other) == member_lookup(m, other),
    decreases m.len(),
{
    let m2 = m.push((key, value));
    if m.len() > 0 {
        assert(m2.drop_first() =~= m.drop_first().push((key, value)));
        assert(m2[0] == m[0]);
        assert(m[0].0@ != key@);
        assert forall|i: int| 0 <= i < m.drop_first().len() implies #[trigger] m.drop_first()[i].0@
            != key@ by {
            assert(m.drop_first()[i] == m[i + 1]);
        }
        lemma_lookup_push(m.drop_first(), key, value, other);
        if other != key@ {
            if m[0].0@ == other {
                assert(member_lookup(m2, other) == Some(m[0].1));
            } else {
                assert(member_lookup(m2, other) == member_lookup(m2.drop_first(), other));
                assert(member_lookup(m, other) == member_lookup(m.drop_first(), other));
            }
        }
    } else {
        assert(m2.drop_first() =~= Seq::<(String, Json)>::empty());
        assert(m2[0] == (key, value));
    }
}

/// The names of a member list.
pub open spec fn member_names(m: Seq<(String, Json)>) -> Seq<Seq<char>> {
    m.map_values(|e: (String, Json)| e.0@)
}

/// Adds member `key` when `value` is given; `key` must be new.
pub fn with_member(members: Vec<(String, Json)>, key: &str, value: Option<Json>) -> (r: Vec<
    (String, Json),
>)
    requires
        !member_names(members@).contains(key@),
    ensures
        member_names(r@) == member_names(members@) + opt_name(key@, value is Some),
        member_lookup(r@, key@) == value,
        forall|other: Seq<char>|
            other != key@ ==> member_lookup(r@, other) == member_lookup(members@, other),
{
    let mut m = members;
    proof {
        assert forall|i: int| 0 <= i < m@.len() implies #[trigger] m@[i].0@ != key@ by {
            assert(member_names(m@)[i] == m@[i].0@);
        }
        if value is None {
            lemma_lookup_absent(m@, key@);
        }
    }
    match value {
        Some(v) => {
            add_member(&mut m, key, v);
            assert(member_names(m@) =~= member_names(members@) + opt_name(key@, true));
        },
        None => {
            assert(member_names(m@) =~= member_names(members@) + opt_name(key@, false));
        },
    }
    m
}

/// A name that no member carries is not found.
pub proof fn lemma_lookup_absent(m: Seq<(String, Json)>, key: Seq<char>)
    requires
        forall|i: int| 0 <= i < m.len() ==> #[trigger] m[i].0@ != key,
    ensures
        member_lookup(m, key) is None,
    decreases m.len(),
{
    if m.len() > 0 {
        assert forall|i: int| 0 <= i < m.drop_first().len() implies #[trigger] m.drop_first()[i].0@
            != key by {
            assert(m.drop_first()[i] == m[i + 1]);
        }
        lemma_lookup_absent(m.drop_first(), key);
    }
}

/// Adds a member of a name the object does not have yet.
pub fn add_member(members: &mut Vec<(String, Json)>, key: &str, value: Json)
    requires
        forall|i: int| 0 <= i < old(members)@.len() ==> #[trigger] old(members)@[i].0@ != key@,
    ensures
        final(members)@ == old(members)@.push((final(members)@.last().0, value)),
        final(members)@.last().0@ == key@,
        member_lookup(final(members)@, key@) == Some(value),
        forall|other: Seq<char>|
            other != key@ ==> member_lookup(final(members)@, other) == member_lookup(
                old(members)@,
                other,
            ),
{
    let k = String::from_str(key);
    proof {
        assert forall|other: Seq<char>| other != key@ implies member_lookup(
            old(members)@.push((k, value)),
            other,
        ) == member_lookup(old(members)@, other) by {
            lemma_lookup_push(old(members)@, k, value, other);
        }
        lemma_lookup_push(old(members)@, k, value, key@);
    }
    members.push((k, value));
}

/// Whether two documents are the same value: same kind, same text, same
/// items in the same order, same members in the same order.
pub open spec fn json_same(a: Json, b: Json) -> bool
    decreases a,
{
    match a {
        Json::Null => b is Null,
        Json::Bool(x) => b matches Json::Bool(y) && x == y,
        Json::Number(x) => b matches Json::Number(y) && x@ == y@,
        Json::Str(x) => b matches Json::Str(y) && x@ == y@,
        Json::Array(x) => match b {
            Json::Array(y) => x@.len() == y@.len() && forall|i: int|
                0 <= i < x@.len() ==> json_same(#[trigger] x@[i], y@[i]),
            _ => false,
        },
        Json::Object(x) => match b {
            Json::Object(y) => x@.len() == y@.len() && forall|i: int|
                0 <= i < x@.len() ==> (#[trigger] x@[i]).0@ == y@[i].0@ && json_same(
                    x@[i].1,
                    y@[i].1,
                ),
            _ => false,
        },
    }
}

/// Compares two documents as `json_same` does.
pub fn json_eq(a: &Json, b: &Json) -> (r: bool)
    ensures
        r == json_same(*a, *b),
    decreases *a,
{
    match a {
        Json::Null => b.is_null(),
        Json::Bool(x) => match b {
            Json::Bool(y) => *x == *y,
            _ => false,
        },
        Json::Number(x) => match b {
            Json::Number(y) => str_eq(x.as_str(), y.as_str()),
            _ => false,
        },
        Json::Str(x) => match b {
            Json::Str(y) => str_eq(x.as_str(), y.as_str()),
            _ => false,
        },
        Json::Array(x) => match b {
            Json::Array(y) => {
                if x.len() != y.len() {
                    return false;
                }
                let mut i: usize = 0;
                while i < x.len()
                    invariant
                        x@.len() == y@.len(),
                        i <= x@.len(),
                        *a == Json::Array(*x),
                        *b == Json::Array(*y),
                        forall|k: int| 0 <= k < i ==> json_same(#[trigger] x@[k], y@[k]),
                    decreases x@.len() - i,
                {
                    proof {
                        vstd::std_specs::vec::axiom_vec_index_decreases(*x, i as int);
                        assert(decreases_to!(*a => a->Array_0));
                    }
                    if !json_eq(&x[i], &y[i]) {
                        assert(!json_same(x@[i as int], y@[i as int]));
                        assert(!json_same(*a, *b));
                        return false;
                    }
                    i = i + 1;
                }
                assert(json_same(*a, *b));
                true
            },
            _ => false,
        },
        Json::Object(x) => match b {
            Json::Object(y) => {
                if x.len() != y.len() {
                    return false;
                }
                let mut i: usize = 0;
                while i < x.len()
                    invariant
                        x@.len() == y@.len(),
                        i <= x@.len(),
                        *a == Json::Object(*x),
                        *b == Json::Object(*y),
                        forall|k: int|
                            0 <= k < i ==> (#[trigger] x@[k]).0@ == y@[k].0@ && json_same(
                                x@[k].1,
                                y@[k].1,
                            ),
                    decreases x@.len() - i,
                {
                    proof {
                        vstd::std_specs::vec::axiom_vec_index_decreases(*x, i as int);
                        assert(decreases_to!(*a => a->Object_0));
                        assert(decreases_to!(x[i as int] => x[i as int].1));
                    }
                    if !str_eq(x[i].0.as_str(), y[i].0.as_str()) {
                        assert(x@[i as int].0@ != y@[i as int].0@);
                        assert(!json_same(*a, *b));
                        return false;
                    }
                    if !json_eq(&x[i].1, &y[i].1) {
                        assert(!json_same(x@[i as int].1, y@[i as int].1));
                        assert(!json_same(*a, *b));
                        return false;
                    }
                    i = i + 1;
                }
                assert(json_same(*a, *b));
                true
            },
            _ => false,
        },
    }
}

/// Names appear at most once.
pub open spec fn distinct_names(m: Seq<(String, Json)>) -> bool {
    forall|i: int, j: int| 0 <= i < j < m.len() ==> (#[trigger] m[i]).0@ != (#[trigger] m[j]).0@
}

/// Sets member `key` to `value`: replaces it when present, else appends it
/// (as `map[key] = value` does).
pub fn set_member(members: &mut Vec<(String, Json)>, key: &str, value: Json)
    requires
        distinct_names(old(members)@),
    ensures
        distinct_names(final(members)@),
        member_lookup(final(members)@, key@) == Some(value),
        forall|other: Seq<char>|
            other != key@ ==> member_lookup(final(members)@, other) == member_lookup(
                old(members)@,
                other,
            ),
        member_names(final(members)@).to_set() == member_names(old(members)@).to_set().insert(
            key@,
        ),
{
    let i = find_member(members, key);
    if i < members.len() {
        let ghost before = members@;
        let (old_key, _old_value) = members.remove(i);
        members.insert(i, (old_key, value));
        proof {
            let m = members@;
            assert(m =~= before.update(i as int, (before[i as int].0, value)));
            lemma_lookup_update(before, i as int, value);
            assert(member_names(m) =~= member_names(before));
            assert(member_names(before)[i as int] == key@);
            assert(member_names(before).to_set().insert(key@) =~= member_names(before).to_set());
        }
    } else {
        proof {
            lemma_lookup_absent(members@, key@);
        }
        let ghost before = members@;
        add_member(members, key, value);
        proof {
            assert(member_names(members@) =~= member_names(before).push(key@));
            assert forall|x: Seq<char>| member_names(before).push(key@).to_set().contains(x)
                == member_names(before).to_set().insert(key@).contains(x) by {
                if member_names(before).to_set().contains(x) {
                    let j = choose|j: int| 0 <= j < before.len() && member_names(before)[j] == x;
                    assert(member_names(before).push(key@)[j] == x);
                }
                if x == key@ {
                    assert(member_names(before).push(key@)[before.len() as int] == x);
                }
                if member_names(before).push(key@).to_set().contains(x) {
                    let j = choose|j: int| 0 <= j < before.len() + 1 && member_names(before).push(key@)[j] == x;
                    if j < before.len() {
                        assert(member_names(before)[j] == x);
                    }
                }
            }
            assert(member_names(before).push(key@).to_set() =~= member_names(before).to_set().insert(
                key@,
            ));
        }
    }
}

/// Removes member `key` when present.
pub fn remove_member(members: &mut Vec<(String, Json)>, key: &str)
    requires
        distinct_names(old(members)@),
    ensures
        distinct_names(final(members)@),
        member_lookup(final(members)@, key@) is None,
        forall|other: Seq<char>|
            other != key@ ==> member_lookup(final(members)@, other) == member_lookup(
                old(members)@,
                other,
            ),
        member_names(final(members)@).to_set() == member_names(old(members)@).to_set().remove(
            key@,
        ),
{
    let i = find_member(members, key);
    if i < members.len() {
        let ghost before = members@;
        members.remove(i);
        proof {
            lemma_lookup_remove(before, i as int);
            assert(member_names(members@) =~= member_names(before).remove(i as int));
            assert forall|x: Seq<char>| member_names(members@).to_set().contains(x)
                == member_names(before).to_set().remove(key@).contains(x) by {
                if member_names(before).to_set().remove(key@).contains(x) {
                    let j = choose|j: int| 0 <= j < before.len() && member_names(before)[j] == x;
                    if j < i {
                        assert(member_names(members@)[j] == x);
                    } else {
                        assert(j != i);
                        assert(member_names(members@)[j - 1] == x);
                    }
                }
            }
            assert(member_names(members@).to_set() =~= member_names(before).to_set().remove(key@));
        }
    } else {
        proof {
            lemma_lookup_absent(members@, key@);
            assert forall|x: Seq<char>| member_names(members@).to_set().contains(x)
                == member_names(members@).to_set().remove(key@).contains(x) by {
                if member_names(members@).to_set().contains(x) {
                    let j = choose|j: int| 0 <= j < members@.len() && member_names(members@)[j] == x;
                    assert(members@[j].0@ == x);
                }
            }
            assert(member_names(members@).to_set() =~= member_names(members@).to_set().remove(key@));
        }
    }
}

/// The index of member `key`, or the length when there is none.
fn find_member(members: &Vec<(String, Json)>, key: &str) -> (i: usize)
    requires
        distinct_names(members@),
    ensures
        i <= members@.len(),
        i < members@.len() ==> members@[i as int].0@ == key@,
        i == members@.len() ==> forall|j: int| 0 <= j < members@.len() ==> #[trigger] members@[j].0@ != key@,
{
    let mut i: usize = 0;
    while i < members.len()
        invariant
            i <= members@.len(),
            forall|j: int| 0 <= j < i ==> #[trigger] members@[j].0@ != key@,
        decreases members@.len() - i,
    {
        if str_eq(members[i].0.as_str(), key) {
            return i;
        }
        i = i + 1;
    }
    i
}

/// Replacing the value of the member at `i` (names distinct).
proof fn lemma_lookup_update(m: Seq<(String, Json)>, i: int, value: Json)
    requires
        distinct_names(m),
        0 <= i < m.len(),
    ensures
        distinct_names(m.update(i, (m[i].0, value))),
        member_lookup(m.update(i, (m[i].0, value)), m[i].0@) == Some(value),
        forall|other: Seq<char>|
            other != m[i].0@ ==> member_lookup(m.update(i, (m[i].0, value)), other)
                == member_lookup(m, other),
    decreases m.len(),
{
    let m2 = m.update(i, (m[i].0, value));
    assert forall|a: int, b: int| 0 <= a < b < m2.len() implies (#[trigger] m2[a]).0@ != (
    #[trigger] m2[b]).0@ by {
        assert(m2[a].0 == m[a].0 && m2[b].0 == m[b].0);
    }
    if i == 0 {
        assert(m2.drop_first() =~= m.drop_first());
        assert(m2[0].0 == m[0].0);
        assert forall|other: Seq<char>| other != m[i].0@ implies member_lookup(m2, other)
            == member_lookup(m, other) by {
            assert(member_lookup(m2, other) == member_lookup(m2.drop_first(), other));
        }
    } else {
        assert(m2.drop_first() =~= m.drop_first().update(i - 1, (m[i].0, value)));
        assert(m[0].0@ != m[i].0@);
        assert(m2[0] == m[0]);
        lemma_lookup_update(m.drop_first(), i - 1, value);
        assert forall|other: Seq<char>| other != m[i].0@ implies member_lookup(m2, other)
            == member_lookup(m, other) by {
            if m[0].0@ != other {
                assert(member_lookup(m2, other) == member_lookup(m2.drop_first(), other));
                assert(member_lookup(m, other) == member_lookup(m.drop_first(), other));
            }
        }
        assert(member_lookup(m2, m[i].0@) == member_lookup(m2.drop_first(), m[i].0@));
    }
}

/// Removing the member at `i` (names distinct).
proof fn lemma_lookup_remove(m: Seq<(String, Json)>, i: int)
    requires
        distinct_names(m),
        0 <= i < m.len(),
    ensures
        distinct_names(m.remove(i)),
        member_lookup(m.remove(i), m[i].0@) is None,
        forall|other: Seq<char>|
            other != m[i].0@ ==> member_lookup(m.remove(i), other) == member_lookup(m, other),
    decreases m.len(),
{
    let m2 = m.remove(i);
    assert forall|a: int, b: int| 0 <= a < b < m2.len() implies (#[trigger] m2[a]).0@ != (
    #[trigger] m2[b]).0@ by {
        let a0 = if a < i { a } else { a + 1 };
        let b0 = if b < i { b } else { b + 1 };
        assert(m2[a] == m[a0] && m2[b] == m[b0]);
    }
    if i == 0 {
        assert(m2 =~= m.drop_first());
        assert forall|j: int| 0 <= j < m2.len() implies #[trigger] m2[j].0@ != m[0].0@ by {
            assert(m2[j] == m[j + 1]);
        }
        lemma_lookup_absent(m2, m[0].0@);
        assert forall|other: Seq<char>| other != m[i].0@ implies member_lookup(m2, other)
            == member_lookup(m, other) by {
            assert(member_lookup(m, other) == member_lookup(m.drop_first(), other));
        }
    } else {
        assert(m2.drop_first() =~= m.drop_first().remove(i - 1));
        assert(m2[0] == m[0]);
        assert(m[0].0@ != m[i].0@);
        assert(m.drop_first()[i - 1] == m[i]);
        lemma_lookup_remove(m.drop_first(), i - 1);
        assert forall|other: Seq<char>| other != m[i].0@ implies member_lookup(m2, other)
            == member_lookup(m, other) by {
            if m[0].0@ != other {
                assert(member_lookup(m2, other) == member_lookup(m2.drop_first(), other));
                assert(member_lookup(m, other) == member_lookup(m.drop_first(), other));
            }
        }
        assert(member_lookup(m2, m[i].0@) == member_lookup(m2.drop_first(), m[i].0@));
    }
}

/// Parses unsigned decimal digits into a `u64`, as `str::parse::<u64>` does
/// for text made only of digits.
pub fn parse_u64(s: &str) -> (r: Option<u64>)
    ensures
        r == number_text_u64(s@),
{
    let n = s.unicode_len();
    if n == 0 {
        return None;
    }
    let mut acc: u64 = 0;
    let mut i: usize = 0;
    while i < n
        invariant
            n == s@.len(),
            i <= n,
            acc as nat == digits_value(s@.take(i as int)),
            all_digits(s@.take(i as int)),
        decreases n - i,
    {
        let c = s.get_char(i);
        assert(s@.take(i + 1).drop_last() =~= s@.take(i as int));
        if !('0' <= c && c <= '9') {
            proof {
                assert(!is_digit(s@[i as int]));
            }
            return None;
        }
        let d: u64 = (c as u32 - 48) as u64;
        match acc.checked_mul(10) {
            Some(m) => match m.checked_add(d) {
                Some(v) => {
                    acc = v;
                },
                None => {
                    proof {
                        lemma_digits_value_prefix_bound(s@, i as int + 1);
                    }
                    return None;
                },
            },
            None => {
                proof {
                    lemma_digits_value_prefix_bound(s@, i as int + 1);
                }
                return None;
            },
        }
        i = i + 1;
    }
    assert(s@.take(n as int) =~= s@);
    Some(acc)
}

/// The value of the digits grows (weakly) with every further digit.
pub proof fn lemma_digits_value_prefix_bound(s: Seq<char>, k: int)
    requires
        0 <= k <= s.len(),
    ensures
        all_digits(s) ==> digits_value(s.take(k)) <= digits_value(s),
    decreases s.len() - k,
{
    if k < s.len() && all_digits(s) {
        lemma_digits_value_prefix_bound(s, k + 1);
        assert(s.take(k + 1).drop_last() =~= s.take(k));
        assert(is_digit(s[k]));
    }
    if k == s.len() {
        assert(s.take(k) =~= s);
    }
}

/// The decimal rendering of `n` is made of digits and denotes `n`.
pub proof fn lemma_decimal_digits(n: nat)
    ensures
        decimal(n).len() > 0,
        all_digits(decimal(n)),
        digits_value(decimal(n)) == n,
    decreases n,
{
    if n < 10 {
        assert(decimal(n).drop_last() =~= Seq::<char>::empty());
        assert((digit_char(n) as nat) - 48 == n);
        assert(decimal(n).last() == digit_char(n));
        assert(digits_value(decimal(n)) == digits_value(decimal(n).drop_last()) * 10 + ((
        decimal(n).last() as nat) - 48) as nat);
    } else {
        lemma_decimal_digits(n / 10);
        assert(decimal(n).drop_last() =~= decimal(n / 10));
        assert((digit_char(n % 10) as nat) - 48 == n % 10);
        assert(decimal(n).last() == digit_char(n % 10));
        assert(digits_value(decimal(n)) == digits_value(decimal(n).drop_last()) * 10 + ((
        decimal(n).last() as nat) - 48) as nat);
    }
}

/// The value of the first member named `key`.
pub fn lookup<'a>(m: &'a Vec<(String, Json)>, key: &str) -> (r: Option<&'a Json>)
    ensures
        match r {
            Some(v) => member_lookup(m@, key@) == Some(*v),
            None => member_lookup(m@, key@) is None,
        },
{
    let n = m.len();
    let mut i: usize = 0;
    assert(m@.skip(0) =~= m@);
    while i < n
        invariant
            n == m@.len(),
            i <= n,
            member_lookup(m@, key@) == member_lookup(m@.skip(i as int), key@),
        decreases n - i,
    {
        assert(m@.skip(i as int).drop_first() =~= m@.skip(i + 1));
        if str_eq(m[i].0.as_str(), key) {
            return Some(&m[i].1);
        }
        i = i + 1;
    }
    None
}

/// Every document is the same as itself.
pub proof fn lemma_json_same_refl(a: Json)
    ensures
        json_same(a, a),
    decreases a,
{
    match a {
        Json::Array(x) => {
            assert forall|i: int| 0 <= i < x@.len() implies json_same(#[trigger] x@[i], x@[i]) by {
                vstd::std_specs::vec::axiom_vec_index_decreases(x, i);
                lemma_json_same_refl(x@[i]);
            }
        },
        Json::Object(x) => {
            assert forall|i: int| 0 <= i < x@.len() implies (#[trigger] x@[i]).0@ == x@[i].0@
                && json_same(x@[i].1, x@[i].1) by {
                vstd::std_specs::vec::axiom_vec_index_decreases(x, i);
                lemma_json_same_refl(x@[i].1);
            }
        },
        _ => {},
    }
}

impl Json {
    /// A copy of the document.
    pub fn deep_copy(&self) -> (r: Json)
        ensures
            json_same(r, *self),
        decreases *self,
    {
        match self {
            Json::Null => Json::Null,
            Json::Bool(b) => Json::Bool(*b),
            Json::Number(t) => Json::Number(t.clone()),
            Json::Str(t) => Json::Str(t.clone()),
            Json::Array(v) => {
                let mut out: Vec<Json> = Vec::new();
                let mut i: usize = 0;
                while i < v.len()
                    invariant
                        *self == Json::Array(*v),
                        i <= v@.len(),
                        out@.len() == i,
                        forall|k: int| 0 <= k < i ==> json_same(#[trigger] out@[k], v@[k]),
                    decreases v@.len() - i,
                {
                    proof {
                        vstd::std_specs::vec::axiom_vec_index_decreases(*v, i as int);
                        assert(decreases_to!(*self => self->Array_0));
                    }
                    let c = v[i].deep_copy();
                    out.push(c);
                    i = i + 1;
                }
                let r = Json::Array(out);
                assert(json_same(r, *self));
                r
            },
            Json::Object(m) => {
                let out = copy_members(m);
                let r = Json::Object(out);
                assert(json_same(r, *self));
                r
            },
        }
    }
}

/// Copies of the members, in order.
pub fn copy_members(m: &Vec<(String, Json)>) -> (r: Vec<(String, Json)>)
    ensures
        r@.len() == m@.len(),
        forall|k: int|
            0 <= k < m@.len() ==> (#[trigger] r@[k]).0@ == m@[k].0@ && json_same(r@[k].1, m@[k].1),
    decreases m@,
{
    let mut out: Vec<(String, Json)> = Vec::new();
    let mut i: usize = 0;
    while i < m.len()
        invariant
            i <= m@.len(),
            out@.len() == i,
            forall|k: int|
                0 <= k < i ==> (#[trigger] out@[k]).0@ == m@[k].0@ && json_same(out@[k].1, m@[k].1),
        decreases m@.len() - i,
    {
        proof {
            vstd::std_specs::vec::axiom_vec_index_decreases(*m, i as int);
            assert(decreases_to!(m@[i as int] => m@[i as int].1));
        }
        let c = m[i].1.deep_copy();
        out.push((m[i].0.clone(), c));
        i = i + 1;
    }
    out
}

/// The first member named `key` is the one found.
pub proof fn lemma_lookup_first(m: Seq<(String, Json)>, key: Seq<char>, i: int)
    requires
        0 <= i < m.len(),
        m[i].0@ == key,
        forall|j: int| 0 <= j < i ==> #[trigger] m[j].0@ != key,
    ensures
        member_lookup(m, key) == Some(m[i].1),
    decreases i,
{
    if i > 0 {
        assert forall|j: int| 0 <= j < i - 1 implies #[trigger] m.drop_first()[j].0@ != key by {
            assert(m.drop_first()[j] == m[j + 1]);
        }
        assert(m.drop_first()[i - 1] == m[i]);
        lemma_lookup_first(m.drop_first(), key, i - 1);
    }
}

/// The position of the first member named `key` (the length when there is none).
pub fn position_of_member(m: &Vec<(String, Json)>, key: &str) -> (i: usize)
    ensures
        i <= m@.len(),
        i < m@.len() ==> member_lookup(m@, key@) == Some(m@[i as int].1),
        i == m@.len() ==> member_lookup(m@, key@) is None,
{
    let mut i: usize = 0;
    while i < m.len()
        invariant
            i <= m@.len(),
            forall|j: int| 0 <= j < i ==> #[trigger] m@[j].0@ != key@,
        decreases m@.len() - i,
    {
        if str_eq(m[i].0.as_str(), key) {
            proof {
                lemma_lookup_first(m@, key@, i as int);
            }
            return i;
        }
        i = i + 1;
    }
    proof {
        lemma_lookup_absent(m@, key@);
    }
    i
}

/// The texts of the string array under `key`, when it is one.
pub open spec fn str_items_at(j: Json, key: Seq<char>) -> Option<Seq<Seq<char>>> {
    match j.spec_get(key) {
        Some(v) => str_items(v),
        None => None,
    }
}

} // verus!
