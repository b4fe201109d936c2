//! Multi-valued numbers: the ordered collection of every branch a
//! sub-expression can evaluate to at one point. Binary arithmetic is the
//! full cross product of the two operand collections; unary functions map
//! each branch on its own.

use vstd::prelude::*;
use crate::fixed::{
    fx_abs, fx_abs_s, fx_add, fx_add_s, fx_cos, fx_cos_s, fx_div, fx_div_s, fx_is_even,
    fx_is_even_s, fx_mul, fx_mul_s, fx_neg, fx_neg_s, fx_pow, fx_pow_s, fx_root, fx_root_s,
    fx_sin, fx_sin_s, fx_sub, fx_sub_s, fx_tan, fx_tan_s,
};

verus! {

/// Every branch of one sub-expression's value, in evaluation order. Values
/// are fixed-point `i64` numbers.
#[derive(Debug)]
pub struct MultipleValues {
    pub values: Vec<i64>,
}

impl View for MultipleValues {
    type V = Seq<i64>;

    open spec fn view(&self) -> Seq<i64> {
        self.values@
    }
}

proof fn lemma_map_take_snoc(b: Seq<i64>, f: spec_fn(i64) -> i64, j: int)
    requires
        0 <= j < b.len(),
    ensures
        b.take(j + 1).map_values(f) == b.take(j).map_values(f).push(f(b[j])),
{
    assert(b.take(j + 1).map_values(f) =~= b.take(j).map_values(f).push(f(b[j])));
}

/// One left branch combined with every right branch.
pub open spec fn add_row_s(x: i64, b: Seq<i64>) -> Seq<i64> {
    b.map_values(|y: i64| fx_add_s(x, y))
}

/// The cross product of sums of the two collections.
pub open spec fn mv_add_s(a: Seq<i64>, b: Seq<i64>) -> Seq<i64>
    decreases a.len(),
{
    if a.len() == 0 {
        Seq::empty()
    } else {
        add_row_s(a[0], b) + mv_add_s(a.drop_first(), b)
    }
}

proof fn lemma_mv_add_snoc(a: Seq<i64>, b: Seq<i64>, x: i64)
    ensures
        mv_add_s(a.push(x), b) == mv_add_s(a, b) + add_row_s(x, b),
    decreases a.len(),
{
    if a.len() == 0 {
        assert(a.push(x).drop_first() =~= Seq::<i64>::empty());
        assert(a.push(x)[0] == x);
        assert(mv_add_s(a.push(x), b) == add_row_s(x, b) + mv_add_s(Seq::<i64>::empty(), b));
        assert(add_row_s(x, b) + Seq::<i64>::empty() =~= add_row_s(x, b));
        assert(mv_add_s(a, b) + add_row_s(x, b) =~= add_row_s(x, b));
    } else {
        assert(a.push(x).drop_first() =~= a.drop_first().push(x));
        lemma_mv_add_snoc(a.drop_first(), b, x);
        assert(a.push(x)[0] == a[0]);
        assert(mv_add_s(a.push(x), b) == add_row_s(a[0], b) + mv_add_s(a.drop_first().push(x), b));
        assert(add_row_s(a[0], b) + (mv_add_s(a.drop_first(), b) + add_row_s(x, b)) =~= (add_row_s(a[0], b) + mv_add_s(
            a.drop_first(),
            b,
        )) + add_row_s(x, b));
    }
}

/// One left branch combined with every right branch.
pub open spec fn sub_row_s(x: i64, b: Seq<i64>) -> Seq<i64> {
    b.map_values(|y: i64| fx_sub_s(x, y))
}

/// The cross product of differences of the two collections.
pub open spec fn mv_sub_s(a: Seq<i64>, b: Seq<i64>) -> Seq<i64>
    decreases a.len(),
{
    if a.len() == 0 {
        Seq::empty()
    } else {
        sub_row_s(a[0], b) + mv_sub_s(a.drop_first(), b)
    }
}

proof fn lemma_mv_sub_snoc(a: Seq<i64>, b: Seq<i64>, x: i64)
    ensures
        mv_sub_s(a.push(x), b) == mv_sub_s(a, b) + sub_row_s(x, b),
    decreases a.len(),
{
    if a.len() == 0 {
        assert(a.push(x).drop_first() =~= Seq::<i64>::empty());
        assert(a.push(x)[0] == x);
        assert(mv_sub_s(a.push(x), b) == sub_row_s(x, b) + mv_sub_s(Seq::<i64>::empty(), b));
        assert(sub_row_s(x, b) + Seq::<i64>::empty() =~= sub_row_s(x, b));
        assert(mv_sub_s(a, b) + sub_row_s(x, b) =~= sub_row_s(x, b));
    } else {
        assert(a.push(x).drop_first() =~= a.drop_first().push(x));
        lemma_mv_sub_snoc(a.drop_first(), b, x);
        assert(a.push(x)[0] == a[0]);
        assert(mv_sub_s(a.push(x), b) == sub_row_s(a[0], b) + mv_sub_s(a.drop_first().push(x), b));
        assert(sub_row_s(a[0], b) + (mv_sub_s(a.drop_first(), b) + sub_row_s(x, b)) =~= (sub_row_s(a[0], b) + mv_sub_s(
            a.drop_first(),
            b,
        )) + sub_row_s(x, b));
    }
}

/// One left branch combined with every right branch.
pub open spec fn mul_row_s(x: i64, b: Seq<i64>) -> Seq<i64> {
    b.map_values(|y: i64| fx_mul_s(x, y))
}

/// The cross product of products of the two collections.
pub open spec fn mv_mul_s(a: Seq<i64>, b: Seq<i64>) -> Seq<i64>
    decreases a.len(),
{
    if a.len() == 0 {
        Seq::empty()
    } else {
        mul_row_s(a[0], b) + mv_mul_s(a.drop_first(), b)
    }
}

proof fn lemma_mv_mul_snoc(a: Seq<i64>, b: Seq<i64>, x: i64)
    ensures
        mv_mul_s(a.push(x), b) == mv_mul_s(a, b) + mul_row_s(x, b),
    decreases a.len(),
{
    if a.len() == 0 {
        assert(a.push(x).drop_first() =~= Seq::<i64>::empty());
        assert(a.push(x)[0] == x);
        assert(mv_mul_s(a.push(x), b) == mul_row_s(x, b) + mv_mul_s(Seq::<i64>::empty(), b));
        assert(mul_row_s(x, b) + Seq::<i64>::empty() =~= mul_row_s(x, b));
        assert(mv_mul_s(a, b) + mul_row_s(x, b) =~= mul_row_s(x, b));
    } else {
        assert(a.push(x).drop_first() =~= a.drop_first().push(x));
        lemma_mv_mul_snoc(a.drop_first(), b, x);
        assert(a.push(x)[0] == a[0]);
        assert(mv_mul_s(a.push(x), b) == mul_row_s(a[0], b) + mv_mul_s(a.drop_first().push(x), b));
        assert(mul_row_s(a[0], b) + (mv_mul_s(a.drop_first(), b) + mul_row_s(x, b)) =~= (mul_row_s(a[0], b) + mv_mul_s(
            a.drop_first(),
            b,
        )) + mul_row_s(x, b));
    }
}

/// One left branch combined with every right branch.
pub open spec fn div_row_s(x: i64, b: Seq<i64>) -> Seq<i64> {
    b.map_values(|y: i64| fx_div_s(x, y))
}

/// The cross product of quotients of the two collections.
pub open spec fn mv_div_s(a: Seq<i64>, b: Seq<i64>) -> Seq<i64>
    decreases a.len(),
{
    if a.len() == 0 {
        Seq::empty()
    } else {
        div_row_s(a[0], b) + mv_div_s(a.drop_first(), b)
    }
}

proof fn lemma_mv_div_snoc(a: Seq<i64>, b: Seq<i64>, x: i64)
    ensures
        mv_div_s(a.push(x), b) == mv_div_s(a, b) + div_row_s(x, b),
    decreases a.len(),
{
    if a.len() == 0 {
        assert(a.push(x).drop_first() =~= Seq::<i64>::empty());
        assert(a.push(x)[0] == x);
        assert(mv_div_s(a.push(x), b) == div_row_s(x, b) + mv_div_s(Seq::<i64>::empty(), b));
        assert(div_row_s(x, b) + Seq::<i64>::empty() =~= div_row_s(x, b));
        assert(mv_div_s(a, b) + div_row_s(x, b) =~= div_row_s(x, b));
    } else {
        assert(a.push(x).drop_first() =~= a.drop_first().push(x));
        lemma_mv_div_snoc(a.drop_first(), b, x);
        assert(a.push(x)[0] == a[0]);
        assert(mv_div_s(a.push(x), b) == div_row_s(a[0], b) + mv_div_s(a.drop_first().push(x), b));
        assert(div_row_s(a[0], b) + (mv_div_s(a.drop_first(), b) + div_row_s(x, b)) =~= (div_row_s(a[0], b) + mv_div_s(
            a.drop_first(),
            b,
        )) + div_row_s(x, b));
    }
}

/// One left branch combined with every right branch.
pub open spec fn pow_row_s(x: i64, b: Seq<i64>) -> Seq<i64> {
    b.map_values(|y: i64| fx_pow_s(x, y))
}

/// Every base branch raised to every exponent branch.
pub open spec fn mv_pow_s(a: Seq<i64>, b: Seq<i64>) -> Seq<i64>
    decreases a.len(),
{
    if a.len() == 0 {
        Seq::empty()
    } else {
        pow_row_s(a[0], b) + mv_pow_s(a.drop_first(), b)
    }
}

proof fn lemma_mv_pow_snoc(a: Seq<i64>, b: Seq<i64>, x: i64)
    ensures
        mv_pow_s(a.push(x), b) == mv_pow_s(a, b) + pow_row_s(x, b),
    decreases a.len(),
{
    if a.len() == 0 {
        assert(a.push(x).drop_first() =~= Seq::<i64>::empty());
        assert(a.push(x)[0] == x);
        assert(mv_pow_s(a.push(x), b) == pow_row_s(x, b) + mv_pow_s(Seq::<i64>::empty(), b));
        assert(pow_row_s(x, b) + Seq::<i64>::empty() =~= pow_row_s(x, b));
        assert(mv_pow_s(a, b) + pow_row_s(x, b) =~= pow_row_s(x, b));
    } else {
        assert(a.push(x).drop_first() =~= a.drop_first().push(x));
        lemma_mv_pow_snoc(a.drop_first(), b, x);
        assert(a.push(x)[0] == a[0]);
        assert(mv_pow_s(a.push(x), b) == pow_row_s(a[0], b) + mv_pow_s(a.drop_first().push(x), b));
        assert(pow_row_s(a[0], b) + (mv_pow_s(a.drop_first(), b) + pow_row_s(x, b)) =~= (pow_row_s(a[0], b) + mv_pow_s(
            a.drop_first(),
            b,
        )) + pow_row_s(x, b));
    }
}

/// The branches one `(radicand, degree)` pair contributes to a root: none
/// when an even degree meets a negative radicand; otherwise the principal
/// root, joined by its negation when the root was not written by the user.
pub open spec fn root_pair_s(x: i64, y: i64, user_typed: bool) -> Seq<i64> {
    if !fx_is_even_s(y) || x >= 0 {
        let v = fx_root_s(y, x);
        if user_typed {
            seq![v]
        } else {
            seq![v, fx_neg_s(v)]
        }
    } else {
        Seq::empty()
    }
}

/// The branches one radicand contributes against every degree sample.
pub open spec fn root_row_s(x: i64, b: Seq<i64>, user_typed: bool) -> Seq<i64>
    decreases b.len(),
{
    if b.len() == 0 {
        Seq::empty()
    } else {
        root_pair_s(x, b[0], user_typed) + root_row_s(x, b.drop_first(), user_typed)
    }
}

/// Every root branch over the cross product of radicands and degrees.
pub open spec fn mv_root_s(a: Seq<i64>, b: Seq<i64>, user_typed: bool) -> Seq<i64>
    decreases a.len(),
{
    if a.len() == 0 {
        Seq::empty()
    } else {
        root_row_s(a[0], b, user_typed) + mv_root_s(a.drop_first(), b, user_typed)
    }
}

proof fn lemma_root_row_snoc(x: i64, b: Seq<i64>, user_typed: bool, y: i64)
    ensures
        root_row_s(x, b.push(y), user_typed) == root_row_s(x, b, user_typed) + root_pair_s(
            x,
            y,
            user_typed,
        ),
    decreases b.len(),
{
    if b.len() == 0 {
        assert(b.push(y).drop_first() =~= Seq::<i64>::empty());
        assert(b.push(y)[0] == y);
        assert(root_row_s(x, b.push(y), user_typed) == root_pair_s(x, y, user_typed) + root_row_s(
            x,
            Seq::<i64>::empty(),
            user_typed,
        ));
        assert(root_pair_s(x, y, user_typed) + Seq::<i64>::empty() =~= root_pair_s(
            x,
            y,
            user_typed,
        ));
        assert(root_row_s(x, b, user_typed) + root_pair_s(x, y, user_typed) =~= root_pair_s(
            x,
            y,
            user_typed,
        ));
    } else {
        assert(b.push(y).drop_first() =~= b.drop_first().push(y));
        lemma_root_row_snoc(x, b.drop_first(), user_typed, y);
        assert(b.push(y)[0] == b[0]);
        assert(root_row_s(x, b.push(y), user_typed) == root_pair_s(x, b[0], user_typed)
            + root_row_s(x, b.drop_first().push(y), user_typed));
        assert(root_pair_s(x, b[0], user_typed) + (root_row_s(x, b.drop_first(), user_typed)
            + root_pair_s(x, y, user_typed)) =~= (root_pair_s(x, b[0], user_typed) + root_row_s(
            x,
            b.drop_first(),
            user_typed,
        )) + root_pair_s(x, y, user_typed));
    }
}

proof fn lemma_mv_root_snoc(a: Seq<i64>, b: Seq<i64>, user_typed: bool, x: i64)
    ensures
        mv_root_s(a.push(x), b, user_typed) == mv_root_s(a, b, user_typed) + root_row_s(
            x,
            b,
            user_typed,
        ),
    decreases a.len(),
{
    if a.len() == 0 {
        assert(a.push(x).drop_first() =~= Seq::<i64>::empty());
        assert(a.push(x)[0] == x);
        assert(mv_root_s(a.push(x), b, user_typed) == root_row_s(x, b, user_typed) + mv_root_s(
            Seq::<i64>::empty(),
            b,
            user_typed,
        ));
        assert(root_row_s(x, b, user_typed) + Seq::<i64>::empty() =~= root_row_s(
            x,
            b,
            user_typed,
        ));
        assert(mv_root_s(a, b, user_typed) + root_row_s(x, b, user_typed) =~= root_row_s(
            x,
            b,
            user_typed,
        ));
    } else {
        assert(a.push(x).drop_first() =~= a.drop_first().push(x));
        lemma_mv_root_snoc(a.drop_first(), b, user_typed, x);
        assert(a.push(x)[0] == a[0]);
        assert(mv_root_s(a.push(x), b, user_typed) == root_row_s(a[0], b, user_typed) + mv_root_s(
            a.drop_first().push(x),
            b,
            user_typed,
        ));
        assert(root_row_s(a[0], b, user_typed) + (mv_root_s(a.drop_first(), b, user_typed)
            + root_row_s(x, b, user_typed)) =~= (root_row_s(a[0], b, user_typed) + mv_root_s(
            a.drop_first(),
            b,
            user_typed,
        )) + root_row_s(x, b, user_typed));
    }
}

impl MultipleValues {
    /// The collection holding exactly one branch.
    pub fn new_single(value: i64) -> (r: MultipleValues)
        ensures
            r@ == seq![value],
    {
        let mut values: Vec<i64> = Vec::new();
        values.push(value);
        proof {
            assert(values@ =~= seq![value]);
        }
        MultipleValues { values }
    }

    /// Whether any branch is exactly zero; a zero divisor branch makes a
    /// division fail.
    pub fn has_zero(&self) -> (r: bool)
        ensures
            r == self@.contains(0i64),
    {
        let n = self.values.len();
        let mut i: usize = 0;
        while i < n
            invariant
                i <= n,
                n == self.values.len(),
                forall|k: int| 0 <= k < i ==> self.values@[k] != 0i64,
            decreases n - i,
        {
            if self.values[i] == 0 {
                return true;
            }
            i = i + 1;
        }
        false
    }

    /// Sine of every branch.
    pub fn sin(self) -> (r: MultipleValues)
        ensures
            r@ == self@.map_values(|x: i64| fx_sin_s(x)),
    {
        let mut res: Vec<i64> = Vec::new();
        let n = self.values.len();
        let mut i: usize = 0;
        while i < n
            invariant
                i <= n,
                n == self.values.len(),
                res@ == self.values@.take(i as int).map_values(|x: i64| fx_sin_s(x)),
            decreases n - i,
        {
            res.push(fx_sin(self.values[i]));
            proof {
                lemma_map_take_snoc(self.values@, |x: i64| fx_sin_s(x), i as int);
            }
            i = i + 1;
        }
        proof {
            assert(self.values@.take(n as int) =~= self.values@);
        }
        MultipleValues { values: res }
    }

    /// Cosine of every branch.
    pub fn cos(self) -> (r: MultipleValues)
        ensures
            r@ == self@.map_values(|x: i64| fx_cos_s(x)),
    {
        let mut res: Vec<i64> = Vec::new();
        let n = self.values.len();
        let mut i: usize = 0;
        while i < n
            invariant
                i <= n,
                n == self.values.len(),
                res@ == self.values@.take(i as int).map_values(|x: i64| fx_cos_s(x)),
            decreases n - i,
        {
            res.push(fx_cos(self.values[i]));
            proof {
                lemma_map_take_snoc(self.values@, |x: i64| fx_cos_s(x), i as int);
            }
            i = i + 1;
        }
        proof {
            assert(self.values@.take(n as int) =~= self.values@);
        }
        MultipleValues { values: res }
    }

    /// Tangent of every branch.
    pub fn tan(self) -> (r: MultipleValues)
        ensures
            r@ == self@.map_values(|x: i64| fx_tan_s(x)),
    {
        let mut res: Vec<i64> = Vec::new();
        let n = self.values.len();
        let mut i: usize = 0;
        while i < n
            invariant
                i <= n,
                n == self.values.len(),
                res@ == self.values@.take(i as int).map_values(|x: i64| fx_tan_s(x)),
            decreases n - i,
        {
            res.push(fx_tan(self.values[i]));
            proof {
                lemma_map_take_snoc(self.values@, |x: i64| fx_tan_s(x), i as int);
            }
            i = i + 1;
        }
        proof {
            assert(self.values@.take(n as int) =~= self.values@);
        }
        MultipleValues { values: res }
    }

    /// Magnitude of every branch.
    pub fn abs(self) -> (r: MultipleValues)
        ensures
            r@ == self@.map_values(|x: i64| fx_abs_s(x)),
    {
        let mut res: Vec<i64> = Vec::new();
        let n = self.values.len();
        let mut i: usize = 0;
        while i < n
            invariant
                i <= n,
                n == self.values.len(),
                res@ == self.values@.take(i as int).map_values(|x: i64| fx_abs_s(x)),
            decreases n - i,
        {
            res.push(fx_abs(self.values[i]));
            proof {
                lemma_map_take_snoc(self.values@, |x: i64| fx_abs_s(x), i as int);
            }
            i = i + 1;
        }
        proof {
            assert(self.values@.take(n as int) =~= self.values@);
        }
        MultipleValues { values: res }
    }

    /// Negation of every branch.
    pub fn neg(self) -> (r: MultipleValues)
        ensures
            r@ == self@.map_values(|x: i64| fx_neg_s(x)),
    {
        let mut res: Vec<i64> = Vec::new();
        let n = self.values.len();
        let mut i: usize = 0;
        while i < n
            invariant
                i <= n,
                n == self.values.len(),
                res@ == self.values@.take(i as int).map_values(|x: i64| fx_neg_s(x)),
            decreases n - i,
        {
            res.push(fx_neg(self.values[i]));
            proof {
                lemma_map_take_snoc(self.values@, |x: i64| fx_neg_s(x), i as int);
            }
            i = i + 1;
        }
        proof {
            assert(self.values@.take(n as int) =~= self.values@);
        }
        MultipleValues { values: res }
    }

    /// Cross-product sum of two collections.
    pub fn add(self, other: MultipleValues) -> (r: MultipleValues)
        ensures
            r@ == mv_add_s(self@, other@),
    {
        let mut res: Vec<i64> = Vec::new();
        let n = self.values.len();
        let m = other.values.len();
        let mut i: usize = 0;
        while i < n
            invariant
                i <= n,
                n == self.values.len(),
                m == other.values.len(),
                res@ == mv_add_s(self.values@.take(i as int), other.values@),
            decreases n - i,
        {
            let x = self.values[i];
            let mut j: usize = 0;
            while j < m
                invariant
                    j <= m,
                    i < n,
                    n == self.values.len(),
                    m == other.values.len(),
                    x == self.values@[i as int],
                    res@ == mv_add_s(self.values@.take(i as int), other.values@)
                        + other.values@.take(j as int).map_values(|y: i64| fx_add_s(x, y)),
                decreases m - j,
            {
                res.push(fx_add(x, other.values[j]));
                proof {
                    lemma_map_take_snoc(other.values@, |y: i64| fx_add_s(x, y), j as int);
                    assert(res@ =~= mv_add_s(self.values@.take(i as int), other.values@)
                        + other.values@.take(j + 1 as int).map_values(|y: i64| fx_add_s(x, y)));
                }
                j = j + 1;
            }
            proof {
                assert(other.values@.take(m as int) =~= other.values@);
                assert(other.values@.map_values(|y: i64| fx_add_s(x, y)) == add_row_s(x, other.values@));
                lemma_mv_add_snoc(self.values@.take(i as int), other.values@, x);
                assert(self.values@.take(i as int).push(x) =~= self.values@.take(i + 1 as int));
            }
            i = i + 1;
        }
        proof {
            assert(self.values@.take(n as int) =~= self.values@);
            assert(mv_add_s(self.values@.take(0 as int), other.values@) =~= Seq::<i64>::empty());
        }
        MultipleValues { values: res }
    }

    /// Cross-product difference of two collections.
    pub fn sub(self, other: MultipleValues) -> (r: MultipleValues)
        ensures
            r@ == mv_sub_s(self@, other@),
    {
        let mut res: Vec<i64> = Vec::new();
        let n = self.values.len();
        let m = other.values.len();
        let mut i: usize = 0;
        while i < n
            invariant
                i <= n,
                n == self.values.len(),
                m == other.values.len(),
                res@ == mv_sub_s(self.values@.take(i as int), other.values@),
            decreases n - i,
        {
            let x = self.values[i];
            let mut j: usize = 0;
            while j < m
                invariant
                    j <= m,
                    i < n,
                    n == self.values.len(),
                    m == other.values.len(),
                    x == self.values@[i as int],
                    res@ == mv_sub_s(self.values@.take(i as int), other.values@)
                        + other.values@.take(j as int).map_values(|y: i64| fx_sub_s(x, y)),
                decreases m - j,
            {
                res.push(fx_sub(x, other.values[j]));
                proof {
                    lemma_map_take_snoc(other.values@, |y: i64| fx_sub_s(x, y), j as int);
                    assert(res@ =~= mv_sub_s(self.values@.take(i as int), other.values@)
                        + other.values@.take(j + 1 as int).map_values(|y: i64| fx_sub_s(x, y)));
                }
                j = j + 1;
            }
            proof {
                assert(other.values@.take(m as int) =~= other.values@);
                assert(other.values@.map_values(|y: i64| fx_sub_s(x, y)) == sub_row_s(x, other.values@));
                lemma_mv_sub_snoc(self.values@.take(i as int), other.values@, x);
                assert(self.values@.take(i as int).push(x) =~= self.values@.take(i + 1 as int));
            }
            i = i + 1;
        }
        proof {
            assert(self.values@.take(n as int) =~= self.values@);
            assert(mv_sub_s(self.values@.take(0 as int), other.values@) =~= Seq::<i64>::empty());
        }
        MultipleValues { values: res }
    }

    /// Cross-product product of two collections.
    pub fn mul(self, other: MultipleValues) -> (r: MultipleValues)
        ensures
            r@ == mv_mul_s(self@, other@),
    {
        let mut res: Vec<i64> = Vec::new();
        let n = self.values.len();
        let m = other.values.len();
        let mut i: usize = 0;
        while i < n
            invariant
                i <= n,
                n == self.values.len(),
                m == other.values.len(),
                res@ == mv_mul_s(self.values@.take(i as int), other.values@),
            decreases n - i,
        {
            let x = self.values[i];
            let mut j: usize = 0;
            while j < m
                invariant
                    j <= m,
                    i < n,
                    n == self.values.len(),
                    m == other.values.len(),
                    x == self.values@[i as int],
                    res@ == mv_mul_s(self.values@.take(i as int), other.values@)
                        + other.values@.take(j as int).map_values(|y: i64| fx_mul_s(x, y)),
                decreases m - j,
            {
                res.push(fx_mul(x, other.values[j]));
                proof {
                    lemma_map_take_snoc(other.values@, |y: i64| fx_mul_s(x, y), j as int);
                    assert(res@ =~= mv_mul_s(self.values@.take(i as int), other.values@)
                        + other.values@.take(j + 1 as int).map_values(|y: i64| fx_mul_s(x, y)));
                }
                j = j + 1;
            }
            proof {
                assert(other.values@.take(m as int) =~= other.values@);
                assert(other.values@.map_values(|y: i64| fx_mul_s(x, y)) == mul_row_s(x, other.values@));
                lemma_mv_mul_snoc(self.values@.take(i as int), other.values@, x);
                assert(self.values@.take(i as int).push(x) =~= self.values@.take(i + 1 as int));
            }
            i = i + 1;
        }
        proof {
            assert(self.values@.take(n as int) =~= self.values@);
            assert(mv_mul_s(self.values@.take(0 as int), other.values@) =~= Seq::<i64>::empty());
        }
        MultipleValues { values: res }
    }

    /// Cross-product quotient of two collections. Division by a zero branch saturates here; the evaluator rejects zero divisors before calling.
    pub fn div(self, other: MultipleValues) -> (r: MultipleValues)
        ensures
            r@ == mv_div_s(self@, other@),
    {
        let mut res: Vec<i64> = Vec::new();
        let n = self.values.len();
        let m = other.values.len();
        let mut i: usize = 0;
        while i < n
            invariant
                i <= n,
                n == self.values.len(),
                m == other.values.len(),
                res@ == mv_div_s(self.values@.take(i as int), other.values@),
            decreases n - i,
        {
            let x = self.values[i];
            let mut j: usize = 0;
            while j < m
                invariant
                    j <= m,
                    i < n,
                    n == self.values.len(),
                    m == other.values.len(),
                    x == self.values@[i as int],
                    res@ == mv_div_s(self.values@.take(i as int), other.values@)
                        + other.values@.take(j as int).map_values(|y: i64| fx_div_s(x, y)),
                decreases m - j,
            {
                res.push(fx_div(x, other.values[j]));
                proof {
                    lemma_map_take_snoc(other.values@, |y: i64| fx_div_s(x, y), j as int);
                    assert(res@ =~= mv_div_s(self.values@.take(i as int), other.values@)
                        + other.values@.take(j + 1 as int).map_values(|y: i64| fx_div_s(x, y)));
                }
                j = j + 1;
            }
            proof {
                assert(other.values@.take(m as int) =~= other.values@);
                assert(other.values@.map_values(|y: i64| fx_div_s(x, y)) == div_row_s(x, other.values@));
                lemma_mv_div_snoc(self.values@.take(i as int), other.values@, x);
                assert(self.values@.take(i as int).push(x) =~= self.values@.take(i + 1 as int));
            }
            i = i + 1;
        }
        proof {
            assert(self.values@.take(n as int) =~= self.values@);
            assert(mv_div_s(self.values@.take(0 as int), other.values@) =~= Seq::<i64>::empty());
        }
        MultipleValues { values: res }
    }

    /// Every base branch raised to every exponent branch.
    pub fn pow(self, exp: MultipleValues) -> (r: MultipleValues)
        ensures
            r@ == mv_pow_s(self@, exp@),
    {
        let mut res: Vec<i64> = Vec::new();
        let n = self.values.len();
        let m = exp.values.len();
        let mut i: usize = 0;
        while i < n
            invariant
                i <= n,
                n == self.values.len(),
                m == exp.values.len(),
                res@ == mv_pow_s(self.values@.take(i as int), exp.values@),
            decreases n - i,
        {
            let x = self.values[i];
            let mut j: usize = 0;
            while j < m
                invariant
                    j <= m,
                    i < n,
                    n == self.values.len(),
                    m == exp.values.len(),
                    x == self.values@[i as int],
                    res@ == mv_pow_s(self.values@.take(i as int), exp.values@)
                        + exp.values@.take(j as int).map_values(|y: i64| fx_pow_s(x, y)),
                decreases m - j,
            {
                res.push(fx_pow(x, exp.values[j]));
                proof {
                    lemma_map_take_snoc(exp.values@, |y: i64| fx_pow_s(x, y), j as int);
                    assert(res@ =~= mv_pow_s(self.values@.take(i as int), exp.values@)
                        + exp.values@.take(j + 1 as int).map_values(|y: i64| fx_pow_s(x, y)));
                }
                j = j + 1;
            }
            proof {
                assert(exp.values@.take(m as int) =~= exp.values@);
                assert(exp.values@.map_values(|y: i64| fx_pow_s(x, y)) == pow_row_s(x, exp.values@));
                lemma_mv_pow_snoc(self.values@.take(i as int), exp.values@, x);
                assert(self.values@.take(i as int).push(x) =~= self.values@.take(i + 1 as int));
            }
            i = i + 1;
        }
        proof {
            assert(self.values@.take(n as int) =~= self.values@);
            assert(mv_pow_s(self.values@.take(0 as int), exp.values@) =~= Seq::<i64>::empty());
        }
        MultipleValues { values: res }
    }

    /// Every admissible root branch: `self` holds the radicands, `exp` the
    /// degrees. A root the user typed keeps only the principal branch; an
    /// implicit root also keeps the negated branch.
    pub fn root(self, exp: MultipleValues, user_typed: bool) -> (r: MultipleValues)
        ensures
            r@ == mv_root_s(self@, exp@, user_typed),
    {
        let mut res: Vec<i64> = Vec::new();
        let n = self.values.len();
        let m = exp.values.len();
        let mut i: usize = 0;
        while i < n
            invariant
                i <= n,
                n == self.values.len(),
                m == exp.values.len(),
                res@ == mv_root_s(self.values@.take(i as int), exp.values@, user_typed),
            decreases n - i,
        {
            let x = self.values[i];
            let mut j: usize = 0;
            while j < m
                invariant
                    j <= m,
                    i < n,
                    n == self.values.len(),
                    m == exp.values.len(),
                    x == self.values@[i as int],
                    res@ == mv_root_s(self.values@.take(i as int), exp.values@, user_typed)
                        + root_row_s(x, exp.values@.take(j as int), user_typed),
                decreases m - j,
            {
                let y = exp.values[j];
                if !fx_is_even(y) || x >= 0 {
                    let v = fx_root(y, x);
                    res.push(v);
                    if !user_typed {
                        res.push(fx_neg(v));
                    }
                    proof {
                        if user_typed {
                            assert(root_pair_s(x, y, user_typed) =~= seq![fx_root_s(y, x)]);
                        } else {
                            assert(root_pair_s(x, y, user_typed) =~= seq![
                                fx_root_s(y, x),
                                fx_neg_s(fx_root_s(y, x)),
                            ]);
                        }
                    }
                } else {
                    proof {
                        assert(root_pair_s(x, y, user_typed) =~= Seq::<i64>::empty());
                    }
                }
                proof {
                    lemma_root_row_snoc(x, exp.values@.take(j as int), user_typed, y);
                    assert(exp.values@.take(j as int).push(y) =~= exp.values@.take(j + 1 as int));
                    assert(res@ =~= mv_root_s(self.values@.take(i as int), exp.values@, user_typed)
                        + root_row_s(x, exp.values@.take(j + 1 as int), user_typed));
                }
                j = j + 1;
            }
            proof {
                assert(exp.values@.take(m as int) =~= exp.values@);
                lemma_mv_root_snoc(self.values@.take(i as int), exp.values@, user_typed, x);
                assert(self.values@.take(i as int).push(x) =~= self.values@.take(i + 1 as int));
            }
            i = i + 1;
        }
        proof {
            assert(self.values@.take(n as int) =~= self.values@);
            assert(mv_root_s(self.values@.take(0 as int), exp.values@, user_typed) =~= Seq::<
                i64,
            >::empty());
        }
        MultipleValues { values: res }
    }
}

/// The left-boundary and right-boundary samples of one equation over one
/// pixel column.
#[derive(Debug)]
pub struct LeftRight {
    pub left: MultipleValues,
    pub right: MultipleValues,
}

} // verus!
