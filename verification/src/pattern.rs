use vstd::prelude::*;

use crate::signal::Ternary;

verus! {

/// The integers that a ternary code stands for.
pub open spec fn code_values(code: Seq<Ternary>) -> Seq<int> {
    code.map_values(|t: Ternary| t.value())
}

/// Sum of the integers that a ternary code stands for.
pub open spec fn code_sum(code: Seq<Ternary>) -> int
    decreases code.len(),
{
    if code.len() == 0 {
        0
    } else {
        code_sum(code.drop_last()) + code.last().value()
    }
}

/// Every value is one of -1, 0, 1.
pub open spec fn all_ternary(values: Seq<i8>) -> bool {
    forall|i: int| 0 <= i < values.len() ==> -1 <= #[trigger] values[i] <= 1
}

/// Number of positions below `n` at which `a` and `b` hold the same value.
pub open spec fn agreements(a: Seq<Ternary>, b: Seq<Ternary>, n: int) -> nat
    decreases n,
{
    if n <= 0 {
        0
    } else {
        agreements(a, b, n - 1) + if a[n - 1] == b[n - 1] {
            1nat
        } else {
            0nat
        }
    }
}

/// Coded identification pattern using ternary sequences.
#[derive(Clone, Debug, PartialEq)]
pub struct LightPattern {
    pub name: String,
    pub code: Vec<Ternary>,
}

impl LightPattern {
    pub fn new(name: &str, code: Vec<Ternary>) -> (r: Self)
        ensures
            r.name@ == name@,
            r.code@ == code@,
    {
        LightPattern { name: name.to_owned(), code }
    }

    /// Create a pattern from i8 values: `None` when any value is not -1, 0
    /// or 1.
    pub fn from_i8s(name: &str, values: &[i8]) -> (r: Option<Self>)
        ensures
            r is Some <==> all_ternary(values@),
            r matches Some(p) ==> p.name@ == name@ && code_values(p.code@) == values@.map_values(
                |v: i8| v as int,
            ),
    {
        let mut code: Vec<Ternary> = Vec::new();
        let n = values.len();
        for i in 0..n
            invariant
                n == values@.len(),
                code@.len() == i,
                forall|j: int| 0 <= j < i ==> -1 <= #[trigger] values@[j] <= 1,
                forall|j: int| 0 <= j < i ==> (#[trigger] code@[j]).value() == values@[j],
        {
            match Ternary::from_i8(values[i]) {
                Some(t) => code.push(t),
                None => {
                    assert(!(-1 <= values@[i as int] <= 1));
                    return None;
                },
            }
        }
        assert(code_values(code@) =~= values@.map_values(|v: i8| v as int));
        Some(LightPattern { name: name.to_owned(), code })
    }

    /// Check if a received pattern matches this one.
    pub fn matches(&self, received: &[Ternary]) -> (r: bool)
        ensures
            r == (self.code@ == received@),
    {
        if self.code.len() != received.len() {
            return false;
        }
        let n = received.len();
        for i in 0..n
            invariant
                n == received@.len(),
                n == self.code@.len(),
                forall|j: int| 0 <= j < i ==> self.code@[j] == received@[j],
        {
            if self.code[i] != received[i] {
                return false;
            }
        }
        assert(self.code@ =~= received@);
        true
    }

    /// The similarity of two patterns as a fraction: the number of positions,
    /// up to the shorter length, at which both hold the same value, over the
    /// longer length. `None` when either pattern is empty, whose similarity
    /// is zero.
    pub fn similarity_counts(&self, other: &[Ternary]) -> (r: Option<(usize, usize)>)
        ensures
            r is None <==> (self.code@.len() == 0 || other@.len() == 0),
            r matches Some((same, longest)) ==> {
                &&& same == agreements(
                    self.code@,
                    other@,
                    if self.code@.len() <= other@.len() {
                        self.code@.len() as int
                    } else {
                        other@.len() as int
                    },
                )
                &&& longest == if self.code@.len() >= other@.len() {
                    self.code@.len()
                } else {
                    other@.len()
                }
                &&& 0 < longest
                &&& same <= longest
            },
    {
        if self.code.len() == 0 || other.len() == 0 {
            return None;
        }
        let min_len = if self.code.len() <= other.len() {
            self.code.len()
        } else {
            other.len()
        };
        let max_len = if self.code.len() >= other.len() {
            self.code.len()
        } else {
            other.len()
        };
        let mut same: usize = 0;
        for i in 0..min_len
            invariant
                min_len <= self.code@.len(),
                min_len <= other@.len(),
                same == agreements(self.code@, other@, i as int),
                same <= i,
        {
            if self.code[i] == other[i] {
                same = same + 1;
            }
        }
        Some((same, max_len))
    }

    /// The checksum: the sum of the ternary values, modulo 3, for a code of
    /// any length. The sum is kept modulo 3 as it is accumulated, so it
    /// cannot overflow.
    pub fn checksum(&self) -> (r: i8)
        ensures
            r == code_sum(self.code@) % 3,
            0 <= r < 3,
    {
        let mut acc: i8 = 0;
        let n = self.code.len();
        for i in 0..n
            invariant
                n == self.code@.len(),
                0 <= acc < 3,
                acc == code_sum(self.code@.take(i as int)) % 3,
        {
            assert(self.code@.take(i + 1).drop_last() =~= self.code@.take(i as int));
            let ghost before = code_sum(self.code@.take(i as int));
            let v = self.code[i].to_i8();
            proof {
                lemma_mod3_step(before, v as int);
            }
            acc = (acc + v + 3) % 3;
        }
        assert(self.code@.take(n as int) =~= self.code@);
        acc
    }
}

/// Adding `v` to a running sum changes its residue modulo 3 as adding `v`
/// (plus a multiple of 3) to the residue does.
proof fn lemma_mod3_step(sum: int, v: int)
    ensures
        (sum % 3 + v + 3) % 3 == (sum + v) % 3,
{
    assert((sum % 3 + v + 3) % 3 == (sum + v) % 3) by (nonlinear_arith);
}

/// Reading a code as integers and back gives the code again: every value of a
/// code is -1, 0 or 1, and two codes with the same values are the same code.
pub proof fn lemma_code_values_roundtrip(code: Seq<Ternary>, other: Seq<Ternary>)
    ensures
        forall|i: int| 0 <= i < code.len() ==> -1 <= #[trigger] code_values(code)[i] <= 1,
        code_values(code) == code_values(other) ==> code == other,
{
    if code_values(code) == code_values(other) {
        assert(code.len() == code_values(code).len());
        assert(other.len() == code_values(other).len());
        assert forall|i: int| 0 <= i < code.len() implies code[i] == other[i] by {
            assert(code_values(code)[i] == code[i].value());
            assert(code_values(other)[i] == other[i].value());
        }
        assert(code =~= other);
    }
}

/// A code agrees with itself at every position, so a non-empty pattern
/// compared with its own code counts all its positions as the same out of its
/// own length: its similarity is one.
pub proof fn lemma_agreements_self(a: Seq<Ternary>, n: int)
    requires
        0 <= n <= a.len(),
    ensures
        agreements(a, a, n) == n,
    decreases n,
{
    if n > 0 {
        lemma_agreements_self(a, n - 1);
    }
}

/// The number of agreeing positions never exceeds the number of positions
/// looked at.
pub proof fn lemma_agreements_bounded(a: Seq<Ternary>, b: Seq<Ternary>, n: int)
    requires
        0 <= n,
    ensures
        agreements(a, b, n) <= n,
    decreases n,
{
    if n > 0 {
        lemma_agreements_bounded(a, b, n - 1);
    }
}

/// Similarity is symmetric: two codes agree at the same positions whichever
/// is looked at first, and the shorter and longer lengths do not depend on the
/// order either, so comparing `a` with `b` gives the same counts as comparing
/// `b` with `a`.
pub proof fn lemma_similarity_symmetric(a: Seq<Ternary>, b: Seq<Ternary>, n: int)
    ensures
        agreements(a, b, n) == agreements(b, a, n),
        (if a.len() <= b.len() { a.len() } else { b.len() }) == (if b.len() <= a.len() {
            b.len()
        } else {
            a.len()
        }),
        (if a.len() >= b.len() { a.len() } else { b.len() }) == (if b.len() >= a.len() {
            b.len()
        } else {
            a.len()
        }),
    decreases n,
{
    if n > 0 {
        lemma_similarity_symmetric(a, b, n - 1);
    }
}


/// Two codes agree at a position exactly when they hold the same value there:
/// a differing position adds nothing to the count (bright and dark do not
/// match) and an equal one adds one; all `n` positions agree exactly when the
/// codes are equal on them.
pub proof fn lemma_agreements_exact(a: Seq<Ternary>, b: Seq<Ternary>, n: int)
    requires
        0 < n,
    ensures
        a[n - 1] != b[n - 1] ==> agreements(a, b, n) == agreements(a, b, n - 1),
        a[n - 1] == b[n - 1] ==> agreements(a, b, n) == agreements(a, b, n - 1) + 1,
        agreements(a, b, n) == n <==> forall|i: int| 0 <= i < n ==> a[i] == b[i],
    decreases n,
{
    lemma_agreements_bounded(a, b, n - 1);
    if n > 1 {
        lemma_agreements_exact(a, b, n - 1);
    }
    if agreements(a, b, n) == n {
        assert forall|i: int| 0 <= i < n implies a[i] == b[i] by {
            if i < n - 1 {
                assert(agreements(a, b, n - 1) == n - 1);
            }
        }
    }
    if forall|i: int| 0 <= i < n ==> a[i] == b[i] {
        if n > 1 {
            assert(forall|i: int| 0 <= i < n - 1 ==> a[i] == b[i]);
        }
    }
}


/// The sum of a code is additive over concatenation, with a single value
/// contributing its integer: the checksum depends on each value exactly once.
pub proof fn lemma_code_sum_additive(a: Seq<Ternary>, b: Seq<Ternary>)
    ensures
        code_sum(a + b) == code_sum(a) + code_sum(b),
        code_sum(Seq::<Ternary>::empty()) == 0,
        forall|t: Ternary| code_sum(seq![t]) == #[trigger] t.value(),
    decreases b.len(),
{
    assert forall|t: Ternary| code_sum(seq![t]) == #[trigger] t.value() by {
        let one = seq![t];
        assert(one.drop_last() =~= Seq::<Ternary>::empty());
        assert(code_sum(one.drop_last()) == 0);
        assert(one.last() == t);
    }
    if b.len() == 0 {
        assert(a + b =~= a);
    } else {
        lemma_code_sum_additive(a, b.drop_last());
        assert((a + b).drop_last() =~= a + b.drop_last());
        assert((a + b).last() == b.last());
    }
}

} // verus!
