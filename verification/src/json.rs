//! JSON values, as far as the usage cache is read from them.

use vstd::arithmetic::power2::{lemma2_to64, lemma2_to64_rest, lemma_pow2_adds, lemma_pow2_pos,
    lemma_pow2_strictly_increases, pow2};
use vstd::prelude::*;

use crate::text::same;

verus! {

/// `serde_json::Value`, which only passes through here on its way to `Json`.
#[verifier::external_type_specification]
#[verifier::external_body]
pub struct ExValue(serde_json::Value);

/// A JSON value.
#[derive(Debug)]
pub enum Json {
    Null,
    Bool(bool),
    /// The number as an unsigned integer, when it is one, and the bits of the
    /// double that is nearest to it.
    Number { whole: Option<u64>, double: Option<u64> },
    Text(String),
    Array(Vec<Json>),
    Object(Vec<(String, Json)>),
}

/// A JSON value, as plain text.
pub enum JsonView {
    Null,
    Bool(bool),
    Number { whole: Option<u64>, double: Option<u64> },
    Text(Seq<char>),
    Array(Seq<JsonView>),
    Object(Seq<(Seq<char>, JsonView)>),
}

impl Json {
    pub open spec fn view(&self) -> JsonView
        decreases self,
    {
        match *self {
            Json::Null => JsonView::Null,
            Json::Bool(b) => JsonView::Bool(b),
            Json::Number { whole, double } => JsonView::Number { whole, double },
            Json::Text(s) => JsonView::Text(s@),
            Json::Array(v) => JsonView::Array(elements(v@)),
            Json::Object(m) => JsonView::Object(members(m@)),
        }
    }
}

/// The items of an array, as plain text.
pub open spec fn elements(v: Seq<Json>) -> Seq<JsonView>
    decreases v,
{
    if v.len() == 0 {
        Seq::empty()
    } else {
        elements(v.drop_last()).push(v.last().view())
    }
}

/// The members of an object, as plain text.
pub open spec fn members(m: Seq<(String, Json)>) -> Seq<(Seq<char>, JsonView)>
    decreases m,
{
    if m.len() == 0 {
        Seq::empty()
    } else {
        members(m.drop_last()).push((m.last().0@, m.last().1.view()))
    }
}

/// The value that JSON text stands for, or nothing when it is no JSON.
pub uninterp spec fn json_text(raw: Seq<char>) -> Option<JsonView>;

/// The half of `parse` that changes the type: a `serde_json::Value`, kind for
/// kind, item for item and member for member. A number is what
/// `Number::as_u64` and `Number::as_f64` make of it. Nothing is claimed of the
/// result here; what a text comes to is named by `parse`.
#[verifier::external_body]
fn convert(v: &serde_json::Value) -> Json {
    match v {
        serde_json::Value::Null => Json::Null,
        serde_json::Value::Bool(b) => Json::Bool(*b),
        serde_json::Value::Number(n) => {
            Json::Number { whole: n.as_u64(), double: n.as_f64().map(|x| x.to_bits()) }
        },
        serde_json::Value::String(s) => Json::Text(s.clone()),
        serde_json::Value::Array(a) => Json::Array(a.iter().map(convert).collect()),
        serde_json::Value::Object(m) => {
            Json::Object(m.iter().map(|(k, v)| (k.clone(), convert(v))).collect())
        },
    }
}

/// `serde_json::from_str` into a `serde_json::Value`. The contract names what
/// comes of a text: the same text always gives the same value, or always fails.
/// Which value that is, the grammar of JSON says, and it is not said here.
#[verifier::external_body]
pub(crate) fn parse(raw: &str) -> (r: Option<Json>)
    ensures
        json_text(raw@) == match r {
            Some(v) => Some(v.view()),
            None => None,
        },
{
    serde_json::from_str(raw).ok().as_ref().map(convert)
}

/// The first member of that name.
pub open spec fn lookup(m: Seq<(Seq<char>, JsonView)>, key: Seq<char>) -> Option<JsonView>
    decreases m.len(),
{
    if m.len() == 0 {
        None
    } else if m[0].0 == key {
        Some(m[0].1)
    } else {
        lookup(m.skip(1), key)
    }
}

impl JsonView {
    /// The member of that name, when this is an object that has one.
    pub open spec fn get(self, key: Seq<char>) -> Option<JsonView> {
        match self {
            JsonView::Object(m) => lookup(m, key),
            _ => None,
        }
    }

    /// The text, when this is one.
    pub open spec fn text(self) -> Option<Seq<char>> {
        match self {
            JsonView::Text(s) => Some(s),
            _ => None,
        }
    }

    /// The unsigned integer, when this is one.
    pub open spec fn whole_number(self) -> Option<u64> {
        match self {
            JsonView::Number { whole, .. } => whole,
            _ => None,
        }
    }

    /// The bits of the double, when this is a number.
    pub open spec fn double_bits(self) -> Option<u64> {
        match self {
            JsonView::Number { double, .. } => double,
            _ => None,
        }
    }
}

proof fn lemma_members(m: Seq<(String, Json)>)
    ensures
        members(m).len() == m.len(),
        forall|i: int|
            0 <= i < m.len() ==> (#[trigger] members(m)[i]) == (m[i].0@, m[i].1.view()),
    decreases m.len(),
{
    if m.len() > 0 {
        lemma_members(m.drop_last());
        assert forall|i: int| 0 <= i < m.len() implies (#[trigger] members(m)[i]) == (
            m[i].0@,
            m[i].1.view(),
        ) by {
            if i < m.len() - 1 {
                assert(members(m)[i] == members(m.drop_last())[i]);
                assert(m.drop_last()[i] == m[i]);
            }
        }
    }
}

impl Json {
    /// The member of that name, when this is an object that has one.
    pub fn get(&self, key: &str) -> (r: Option<&Json>)
        ensures
            self.view().get(key@) == match r {
                Some(v) => Some(v.view()),
                None => None,
            },
    {
        match self {
            Json::Object(m) => {
                proof {
                    lemma_members(m@);
                }
                let mut i: usize = 0;
                assert(members(m@).skip(0) =~= members(m@));
                while i < m.len()
                    invariant
                        i <= m@.len(),
                        members(m@).len() == m@.len(),
                        forall|j: int|
                            0 <= j < m@.len() ==> (#[trigger] members(m@)[j]) == (
                                m@[j].0@,
                                m@[j].1.view(),
                            ),
                        lookup(members(m@).skip(i as int), key@) == lookup(members(m@), key@),
                        *self == Json::Object(*m),
                    decreases m@.len() - i,
                {
                    assert(members(m@).skip(i as int)[0] == members(m@)[i as int]);
                    if same(m[i].0.as_str(), key) {
                        return Some(&m[i].1);
                    }
                    assert(members(m@).skip(i as int).skip(1) =~= members(m@).skip(i + 1));
                    i += 1;
                }
                None
            },
            _ => None,
        }
    }

    pub fn is_null(&self) -> (r: bool)
        ensures
            r == (self.view() is Null),
    {
        match self {
            Json::Null => true,
            _ => false,
        }
    }

    /// The text, when this is one.
    pub fn as_str(&self) -> (r: Option<&str>)
        ensures
            self.view().text() == match r {
                Some(s) => Some(s@),
                None => None,
            },
    {
        match self {
            Json::Text(s) => Some(s.as_str()),
            _ => None,
        }
    }

    /// The unsigned integer, when this is one.
    pub fn as_u64(&self) -> (r: Option<u64>)
        ensures
            r == self.view().whole_number(),
    {
        match self {
            Json::Number { whole, .. } => *whole,
            _ => None,
        }
    }

    /// The bits of the double, when this is a number.
    pub fn as_double(&self) -> (r: Option<u64>)
        ensures
            r == self.view().double_bits(),
    {
        match self {
            Json::Number { double, .. } => *double,
            _ => None,
        }
    }
}

// ---------------------------------------------------------------------------
// Doubles.

/// The sign of a double: whether its first bit is set.
pub open spec fn negative(bits: u64) -> bool {
    bits >= 0x8000_0000_0000_0000
}

/// The eleven bits of the exponent.
pub open spec fn exponent(bits: u64) -> nat {
    ((bits / 0x10_0000_0000_0000) % 0x800) as nat
}

/// The 52 bits of the fraction.
pub open spec fn fraction(bits: u64) -> nat {
    (bits % 0x10_0000_0000_0000) as nat
}

/// The 53 bits a finite double counts with.
pub open spec fn significand(bits: u64) -> nat {
    if exponent(bits) == 0 {
        fraction(bits)
    } else {
        fraction(bits) + 0x10_0000_0000_0000
    }
}

/// How far the binary point of a finite double is moved to the left: its
/// magnitude is its significand divided by two to this power.
pub open spec fn point(bits: u64) -> int {
    1075 - (if exponent(bits) == 0 {
        1
    } else {
        exponent(bits) as int
    })
}

/// A magnitude of `significand / 2^point`, rounded to the nearest integer,
/// halves up.
pub open spec fn rounded(significand: nat, point: int) -> nat {
    if point <= 0 {
        significand * pow2((-point) as nat)
    } else {
        (significand * 2 + pow2(point as nat)) / pow2((point + 1) as nat)
    }
}

/// A double rounded to the nearest integer, halves away from zero, and held
/// between 0 and 255. What is not a number counts as 0.
pub open spec fn to_byte(bits: u64) -> u8 {
    if negative(bits) {
        0
    } else if exponent(bits) == 0x7ff {
        if fraction(bits) == 0 {
            255
        } else {
            0
        }
    } else {
        let n = rounded(significand(bits), point(bits));
        if n > 255 {
            255
        } else {
            n as u8
        }
    }
}

/// Two to the power of `k`.
fn power_of_two(k: u64) -> (r: u64)
    requires
        k <= 63,
    ensures
        r == pow2(k as nat),
    decreases k,
{
    if k == 0 {
        proof {
            lemma2_to64();
        }
        1
    } else {
        proof {
            lemma2_to64_rest();
            lemma_pow2_adds((k - 1) as nat, 1);
            lemma2_to64();
            if k < 63 {
                lemma_pow2_strictly_increases(k as nat, 63);
            }
        }
        power_of_two(k - 1) * 2
    }
}

/// The double with these bits, rounded and held between 0 and 255.
pub fn round_to_byte(bits: u64) -> (r: u8)
    ensures
        r == to_byte(bits),
{
    if bits >= 0x8000_0000_0000_0000 {
        return 0;
    }
    let e: u64 = (bits / 0x10_0000_0000_0000) % 0x800;
    let f: u64 = bits % 0x10_0000_0000_0000;
    if e == 0x7ff {
        return if f == 0 {
            255
        } else {
            0
        };
    }
    let m: u64 = if e == 0 {
        f
    } else {
        f + 0x10_0000_0000_0000
    };
    assert(m == significand(bits));
    if e >= 1075 {
        proof {
            let k = (e - 1075) as nat;
            lemma_pow2_pos(k);
            assert(m * pow2(k) >= m) by (nonlinear_arith)
                requires
                    pow2(k) >= 1,
                    m >= 0,
            ;
        }
        return 255;
    }
    let k: u64 = 1075 - (if e == 0 {
        1
    } else {
        e
    });
    proof {
        lemma2_to64_rest();
        lemma_pow2_adds(k as nat, 1);
        lemma2_to64();
        lemma_pow2_pos(k as nat);
    }
    if k > 54 {
        proof {
            lemma_pow2_strictly_increases(54, k as nat);
            assert(m * 2 < pow2(k as nat));
            let a = m * 2 + pow2(k as nat) as int;
            let b = pow2(k as nat) as int * 2;
            assert(a / b == 0) by (nonlinear_arith)
                requires
                    0 <= a < b,
            ;
        }
        return 0;
    }
    let p: u64 = power_of_two(k);
    proof {
        if k < 54 {
            lemma_pow2_strictly_increases(k as nat, 54);
        }
    }
    let n: u64 = (m * 2 + p) / (p * 2);
    if n > 255 {
        255
    } else {
        n as u8
    }
}

/// A double from one up to two hundred and fifty-six, given by the power of two
/// below it and its fraction, is held as the whole number nearest to it, halves
/// up, and as 255 above that.
pub proof fn law_a_percentage_rounds_to_the_nearest(bits: u64, k: nat, f: nat)
    requires
        k <= 7,
        f < 0x10_0000_0000_0000,
        bits == (1023 + k) * 0x10_0000_0000_0000 + f,
    ensures
        ({
            let unit = pow2((52 - k) as nat);
            let twice = 2 * (0x10_0000_0000_0000 + f);
            let r = to_byte(bits) as int;
            &&& (2 * r - 1) * unit <= twice
            &&& r < 255 ==> twice < (2 * r + 1) * unit
        }),
{
    let p = (52 - k) as nat;
    let unit = pow2(p);
    let twice = 2 * (0x10_0000_0000_0000 + f);
    assert(bits / 0x10_0000_0000_0000 == 1023 + k);
    assert(bits % 0x10_0000_0000_0000 == f);
    assert(exponent(bits) == 1023 + k);
    lemma_pow2_pos(p);
    vstd::arithmetic::power2::lemma_pow2_unfold((p + 1) as nat);
    assert(pow2((p + 1) as nat) == 2 * unit);
    let n = rounded(significand(bits), point(bits));
    assert(n == ((twice + unit) as nat) / ((2 * unit) as nat));
    vstd::arithmetic::div_mod::lemma_fundamental_div_mod((twice + unit) as int, (2 * unit) as int);
    vstd::arithmetic::div_mod::lemma_mod_bound((twice + unit) as int, (2 * unit) as int);
    let r = to_byte(bits) as int;
    assert((2 * unit) * n == 2 * n * unit) by (nonlinear_arith);
    assert((2 * n - 1) * unit == 2 * n * unit - unit) by (nonlinear_arith);
    assert((2 * n + 1) * unit == 2 * n * unit + unit) by (nonlinear_arith);
    if n > 255 {
        assert((2 * r - 1) * unit <= (2 * n - 1) * unit) by (nonlinear_arith)
            requires
                r == 255,
                n > 255,
                unit > 0,
        ;
    }
}

/// What is negative counts as nothing, and so does what is no number.
pub proof fn law_nothing_is_below_zero(bits: u64)
    ensures
        bits >= 0x8000_0000_0000_0000 ==> to_byte(bits) == 0,
        0x7ff0_0000_0000_0000 < bits < 0x8000_0000_0000_0000 ==> to_byte(bits) == 0,
        bits == 0x7ff0_0000_0000_0000 ==> to_byte(bits) == 255,
{
}

} // verus!
