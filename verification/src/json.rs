//! The JSON values that policies and submitted metrics arrive as, and the
//! IEEE 754 double-precision numbers they carry, held by their bit patterns.
use vstd::prelude::*;

use crate::text::text_equals;

verus! {

/// The sign bit of a double.
pub const SIGN_BIT: u64 = 0x8000_0000_0000_0000;

/// The bits of positive infinity: every magnitude above it is a NaN.
pub const INFINITY_BITS: u64 = 0x7ff0_0000_0000_0000;

/// A double-precision number, held by the 64 bits of its IEEE 754 encoding.
#[derive(Clone, Copy, Debug, PartialEq, Eq, Structural)]
pub struct Float64 {
    pub bits: u64,
}

impl Float64 {
    /// Whether the sign bit is set.
    pub open spec fn negative(self) -> bool {
        self.bits >= SIGN_BIT
    }

    /// The encoding without its sign bit.
    pub open spec fn magnitude(self) -> int {
        if self.negative() {
            self.bits - SIGN_BIT
        } else {
            self.bits as int
        }
    }

    /// Neither infinite nor NaN: the exponent field is not all ones.
    pub open spec fn finite(self) -> bool {
        self.magnitude() < INFINITY_BITS
    }

    /// A NaN: all-ones exponent and a non-zero fraction.
    pub open spec fn nan(self) -> bool {
        self.magnitude() > INFINITY_BITS
    }

    /// An integer that orders every non-NaN double as its value does; both
    /// zeros get the key 0, so they compare equal.
    pub open spec fn order_key(self) -> int {
        if self.negative() {
            -self.magnitude()
        } else {
            self.magnitude()
        }
    }

    /// IEEE 754 `self >= other`: false whenever either side is NaN.
    pub open spec fn spec_at_least(self, other: Float64) -> bool {
        !self.nan() && !other.nan() && self.order_key() >= other.order_key()
    }

    /// IEEE 754 `self <= other`: false whenever either side is NaN.
    pub open spec fn spec_at_most(self, other: Float64) -> bool {
        !self.nan() && !other.nan() && self.order_key() <= other.order_key()
    }

    fn magnitude_of(&self) -> (m: u64)
        ensures
            m == self.magnitude(),
    {
        if self.bits >= SIGN_BIT {
            self.bits - SIGN_BIT
        } else {
            self.bits
        }
    }

    /// Whether the number is finite (`f64::is_finite`).
    pub fn is_finite(&self) -> (r: bool)
        ensures
            r == self.finite(),
    {
        self.magnitude_of() < INFINITY_BITS
    }

    /// Whether the number is a NaN (`f64::is_nan`).
    pub fn is_nan(&self) -> (r: bool)
        ensures
            r == self.nan(),
    {
        self.magnitude_of() > INFINITY_BITS
    }

    /// `self >= other` as doubles compare.
    pub fn at_least(&self, other: &Float64) -> (r: bool)
        ensures
            r == self.spec_at_least(*other),
    {
        if self.is_nan() || other.is_nan() {
            return false;
        }
        let a = self.magnitude_of();
        let b = other.magnitude_of();
        let a_negative = self.bits >= SIGN_BIT;
        let b_negative = other.bits >= SIGN_BIT;
        if !a_negative && !b_negative {
            a >= b
        } else if a_negative && b_negative {
            a <= b
        } else if a_negative {
            a == 0 && b == 0
        } else {
            true
        }
    }

    /// `self <= other` as doubles compare.
    pub fn at_most(&self, other: &Float64) -> (r: bool)
        ensures
            r == self.spec_at_most(*other),
    {
        other.at_least(self)
    }
}

/// A JSON document. Numbers hold the double that `serde_json::Value::as_f64`
/// reads from them; an object holds its members in iteration order.
#[derive(Debug)]
pub enum JsonValue {
    Null,
    Bool(bool),
    Number(Float64),
    String(String),
    Array(Vec<JsonValue>),
    Object(Vec<(String, JsonValue)>),
}

/// The members of a JSON object, in iteration order. Objects read from
/// `serde_json` have distinct names in key order; every contract here holds
/// for any list, and `lookup` finds what `Map::get` finds when names are
/// distinct.
pub type JsonObject = Vec<(String, JsonValue)>;

/// The names of the members, in order.
pub open spec fn member_names(members: Seq<(String, JsonValue)>) -> Seq<Seq<char>> {
    members.map_values(|m: (String, JsonValue)| m.0@)
}

/// The value under the first member named `key`, as `Map::get` finds it
/// among members with distinct names.
pub open spec fn lookup(members: Seq<(String, JsonValue)>, key: Seq<char>) -> Option<JsonValue>
    decreases members.len(),
{
    if members.len() == 0 {
        None
    } else if members[0].0@ == key {
        Some(members[0].1)
    } else {
        lookup(members.drop_first(), key)
    }
}

proof fn lemma_lookup_step(members: Seq<(String, JsonValue)>, key: Seq<char>, i: int)
    requires
        0 <= i < members.len(),
        members[i].0@ != key,
    ensures
        lookup(members.subrange(i, members.len() as int), key) == lookup(
            members.subrange(i + 1, members.len() as int),
            key,
        ),
{
    assert(members.subrange(i, members.len() as int).drop_first() =~= members.subrange(
        i + 1,
        members.len() as int,
    ));
}

/// The index of the first member named `key`, when there is one.
pub fn find_member(members: &JsonObject, key: &str) -> (r: Option<usize>)
    ensures
        match r {
            Some(i) => i < members@.len() && members@[i as int].0@ == key@ && (forall|j: int|
                0 <= j < i ==> (#[trigger] members@[j]).0@ != key@) && lookup(members@, key@)
                == Some(members@[i as int].1),
            None => lookup(members@, key@) is None,
        },
{
    let n = members.len();
    let mut i: usize = 0;
    assert(members@.subrange(0, n as int) =~= members@);
    while i < n
        invariant
            n == members@.len(),
            i <= n,
            lookup(members@, key@) == lookup(members@.subrange(i as int, n as int), key@),
            forall|j: int| 0 <= j < i ==> (#[trigger] members@[j]).0@ != key@,
        decreases n - i,
    {
        if text_equals(members[i].0.as_str(), key) {
            assert(members@.subrange(i as int, n as int)[0] == members@[i as int]);
            return Some(i);
        }
        proof {
            lemma_lookup_step(members@, key@, i as int);
        }
        i = i + 1;
    }
    None
}

} // verus!
