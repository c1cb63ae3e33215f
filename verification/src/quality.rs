//! Feature-set descriptors. A `PhonemeQuality` holds three ordered
//! collections of axis values whose Cartesian product is the set of concrete
//! feature tuples a phoneme occupies. The same type doubles as a selector,
//! where an empty collection on an axis means "any value of that axis".

use vstd::prelude::*;
use vstd::arithmetic::div_mod::lemma_fundamental_div_mod_converse;

use crate::category::Category;

verus! {

/// Copies a vector of axis values.
pub fn copy_vec<T: Category>(v: &Vec<T>) -> (r: Vec<T>)
    ensures
        r@ == v@,
{
    let mut r: Vec<T> = Vec::new();
    let mut i: usize = 0;
    while i < v.len()
        invariant
            i <= v@.len(),
            r@ =~= v@.subrange(0, i as int),
        decreases v@.len() - i,
    {
        r.push(v[i]);
        i += 1;
    }
    proof {
        assert(r@ =~= v@);
    }
    r
}

/// Whether a vector of axis values holds `x`.
pub fn vec_has<T: Category>(v: &Vec<T>, x: T) -> (r: bool)
    ensures
        r == v@.contains(x),
{
    let mut i: usize = 0;
    while i < v.len()
        invariant
            i <= v@.len(),
            forall|k: int| 0 <= k < i ==> v@[k] != x,
        decreases v@.len() - i,
    {
        if v[i].same(x) {
            return true;
        }
        i += 1;
    }
    false
}

/// Whether some value occurs in both vectors.
fn axes_intersect<T: Category>(mine: &Vec<T>, sel: &Vec<T>) -> (r: bool)
    ensures
        r == exists|x: T| #[trigger] mine@.contains(x) && sel@.contains(x),
{
    let mut i: usize = 0;
    while i < mine.len()
        invariant
            i <= mine@.len(),
            forall|k: int, l: int| 0 <= k < i && 0 <= l < sel@.len() ==> mine@[k] != sel@[l],
        decreases mine@.len() - i,
    {
        if vec_has(sel, mine[i]) {
            let witness = mine[i];
            assert(mine@.contains(witness) && sel@.contains(witness));
            return true;
        }
        proof {
            assert(forall|l: int| 0 <= l < sel@.len() ==> mine@[i as int] != sel@[l]) by {
                assert(!sel@.contains(mine@[i as int]));
            }
        }
        i += 1;
    }
    proof {
        assert forall|x: T| !(#[trigger] mine@.contains(x) && sel@.contains(x)) by {
            if mine@.contains(x) && sel@.contains(x) {
                let k = mine@.index_of(x);
                let l = sel@.index_of(x);
                assert(mine@[k] == sel@[l]);
            }
        }
    }
    false
}

/// The element of the Cartesian product of three sequences at flat position
/// `n`, counting the first axis outermost and the third innermost.
pub open spec fn tuple_at<A, B, C>(s0: Seq<A>, s1: Seq<B>, s2: Seq<C>, n: int) -> (A, B, C) {
    (
        s0[n / (s1.len() * s2.len()) as int],
        s1[(n / s2.len() as int) % s1.len() as int],
        s2[n % s2.len() as int],
    )
}

/// The full Cartesian product of three sequences, first axis outermost,
/// third axis innermost.
pub open spec fn cart3<A, B, C>(s0: Seq<A>, s1: Seq<B>, s2: Seq<C>) -> Seq<(A, B, C)> {
    Seq::new(s0.len() * s1.len() * s2.len(), |n: int| tuple_at(s0, s1, s2, n))
}

/// The flat position of `(i, j, k)` lies inside the product of the bounds.
pub proof fn lemma_flat_index_bound(l0: int, l1: int, l2: int, i: int, j: int, k: int)
    by (nonlinear_arith)
    requires
        0 <= i < l0,
        0 <= j < l1,
        0 <= k < l2,
    ensures
        0 <= (i * l1 + j) * l2 + k < l0 * l1 * l2,
{
}

/// Decomposing the flat position `(i * l1 + j) * l2 + k` recovers `i`, `j`
/// and `k`.
pub proof fn lemma_flat_index_decompose(l1: int, l2: int, i: int, j: int, k: int)
    requires
        0 <= i,
        0 <= j < l1,
        0 <= k < l2,
    ensures
        ((i * l1 + j) * l2 + k) / (l1 * l2) == i,
        (((i * l1 + j) * l2 + k) / l2) % l1 == j,
        ((i * l1 + j) * l2 + k) % l2 == k,
{
    let n = (i * l1 + j) * l2 + k;
    assert(n == i * (l1 * l2) + (j * l2 + k) && 0 <= j * l2 + k < l1 * l2) by (nonlinear_arith)
        requires
            0 <= i,
            0 <= j < l1,
            0 <= k < l2,
            n == (i * l1 + j) * l2 + k,
    ;
    lemma_fundamental_div_mod_converse(n, l1 * l2, i, j * l2 + k);
    lemma_fundamental_div_mod_converse(n, l2, i * l1 + j, k);
    lemma_fundamental_div_mod_converse(i * l1 + j, l1, i, j);
}

/// The components of the tuple at any valid flat position are drawn from the
/// three sequences at in-range indices.
proof fn lemma_flat_position_bounds(l0: int, l1: int, l2: int, n: int)
    by (nonlinear_arith)
    requires
        0 < l1,
        0 < l2,
        0 <= n < l0 * l1 * l2,
    ensures
        0 <= n / (l1 * l2) < l0,
        0 <= (n / l2) % l1 < l1,
        0 <= n % l2 < l2,
{
}

/// A tuple occurs in the Cartesian product exactly when each of its
/// components occurs in the corresponding sequence.
pub proof fn lemma_cart3_membership<A, B, C>(s0: Seq<A>, s1: Seq<B>, s2: Seq<C>, t: (A, B, C))
    ensures
        cart3(s0, s1, s2).contains(t) <==> (s0.contains(t.0) && s1.contains(t.1) && s2.contains(
            t.2,
        )),
{
    let l0 = s0.len() as int;
    let l1 = s1.len() as int;
    let l2 = s2.len() as int;
    let prod = cart3(s0, s1, s2);
    if prod.contains(t) {
        let n = prod.index_of(t);
        assert(l0 * l1 * l2 > 0);
        assert(l1 > 0 && l2 > 0) by (nonlinear_arith)
            requires
                l0 * l1 * l2 > 0,
                l0 >= 0,
                l1 >= 0,
                l2 >= 0,
        ;
        lemma_flat_position_bounds(l0, l1, l2, n);
        assert(s0.contains(s0[n / (l1 * l2)]));
        assert(s1.contains(s1[(n / l2) % l1]));
        assert(s2.contains(s2[n % l2]));
    }
    if s0.contains(t.0) && s1.contains(t.1) && s2.contains(t.2) {
        let i = s0.index_of(t.0);
        let j = s1.index_of(t.1);
        let k = s2.index_of(t.2);
        let n = (i * l1 + j) * l2 + k;
        lemma_flat_index_bound(l0, l1, l2, i, j, k);
        lemma_flat_index_decompose(l1, l2, i, j, k);
        assert(prod[n] == t);
        assert(prod.contains(t));
    }
}

/// Three ordered, possibly-empty collections of axis values, one per tier.
/// As ground truth for a phoneme, every axis must be non-empty and the
/// Cartesian product is the set of feature tuples the phoneme occupies. As a
/// selector, an empty axis means "any value of that axis".
pub struct PhonemeQuality<A: Category, B: Category, C: Category>(pub Vec<A>, pub Vec<B>, pub Vec<C>);

/// A quality used as a wildcard-capable query rather than ground truth.
pub type PhonemeSelector<A, B, C> = PhonemeQuality<A, B, C>;

/// The three axis views are all empty: the selector that matches everything.
pub open spec fn blank_views<A, B, C>(s0: Seq<A>, s1: Seq<B>, s2: Seq<C>) -> bool {
    s0.len() == 0 && s1.len() == 0 && s2.len() == 0
}

/// The quality with the given axis views occupies the tuple `(a, b, c)`.
pub open spec fn covers_views<A, B, C>(s0: Seq<A>, s1: Seq<B>, s2: Seq<C>, a: A, b: B, c: C) -> bool {
    s0.contains(a) && s1.contains(b) && s2.contains(c)
}

/// The selector with the given axis views admits the tuple `(a, b, c)`:
/// each axis either is a wildcard or lists the component.
pub open spec fn admits_views<A, B, C>(s0: Seq<A>, s1: Seq<B>, s2: Seq<C>, a: A, b: B, c: C) -> bool {
    &&& (s0.len() == 0 || s0.contains(a))
    &&& (s1.len() == 0 || s1.contains(b))
    &&& (s2.len() == 0 || s2.contains(c))
}

/// The quality with axis views `q0, q1, q2` matches the selector with axis
/// views `s0, s1, s2`: the selector is blank, or some tuple the quality
/// occupies is admitted by the selector.
pub open spec fn matches_views<A, B, C>(
    q0: Seq<A>,
    q1: Seq<B>,
    q2: Seq<C>,
    s0: Seq<A>,
    s1: Seq<B>,
    s2: Seq<C>,
) -> bool {
    blank_views(s0, s1, s2) || exists|a: A, b: B, c: C|
        #[trigger] covers_views(q0, q1, q2, a, b, c) && admits_views(s0, s1, s2, a, b, c)
}

impl<A: Category, B: Category, C: Category> PhonemeQuality<A, B, C> {
    /// All three axes are empty: the selector that matches everything.
    pub open spec fn is_blank(self) -> bool {
        blank_views(self.0@, self.1@, self.2@)
    }

    /// Every axis carries at least one value, as ground truth must.
    pub open spec fn is_concrete(self) -> bool {
        self.0@.len() > 0 && self.1@.len() > 0 && self.2@.len() > 0
    }

    /// Whether this quality occupies the feature tuple `(a, b, c)`.
    pub open spec fn covers(self, a: A, b: B, c: C) -> bool {
        covers_views(self.0@, self.1@, self.2@, a, b, c)
    }

    /// Whether this value, read as a selector, admits the tuple `(a, b, c)`:
    /// each axis either is a wildcard or lists the component.
    pub open spec fn admits(self, a: A, b: B, c: C) -> bool {
        admits_views(self.0@, self.1@, self.2@, a, b, c)
    }

    /// Whether this quality matches the selector: the selector is blank, or
    /// some feature tuple this quality occupies is admitted by the selector.
    pub open spec fn matches_spec(self, selector: PhonemeSelector<A, B, C>) -> bool {
        matches_views(self.0@, self.1@, self.2@, selector.0@, selector.1@, selector.2@)
    }

    /// The all-wildcard selector.
    pub fn blank() -> (r: Self)
        ensures
            r.is_blank(),
    {
        PhonemeQuality(Vec::new(), Vec::new(), Vec::new())
    }

    /// A quality occupying the single tuple `(a, b, c)`.
    pub fn from_triple(a: A, b: B, c: C) -> (r: Self)
        ensures
            r.0@ =~= seq![a],
            r.1@ =~= seq![b],
            r.2@ =~= seq![c],
    {
        let mut v0: Vec<A> = Vec::new();
        v0.push(a);
        let mut v1: Vec<B> = Vec::new();
        v1.push(b);
        let mut v2: Vec<C> = Vec::new();
        v2.push(c);
        PhonemeQuality(v0, v1, v2)
    }

    /// A quality from three explicit value lists.
    pub fn from_lists(a: Vec<A>, b: Vec<B>, c: Vec<C>) -> (r: Self)
        ensures
            r.0@ == a@,
            r.1@ == b@,
            r.2@ == c@,
    {
        PhonemeQuality(a, b, c)
    }

    /// Copies this quality.
    pub fn duplicate(&self) -> (r: Self)
        ensures
            r.0@ == self.0@,
            r.1@ == self.1@,
            r.2@ == self.2@,
    {
        PhonemeQuality(copy_vec(&self.0), copy_vec(&self.1), copy_vec(&self.2))
    }

    /// The full Cartesian product of feature tuples this quality occupies,
    /// first axis outermost, third innermost.
    pub fn expand(&self) -> (r: Vec<(A, B, C)>)
        ensures
            r@ == cart3(self.0@, self.1@, self.2@),
    {
        let ghost s0 = self.0@;
        let ghost s1 = self.1@;
        let ghost s2 = self.2@;
        let ghost l0 = s0.len() as int;
        let ghost l1 = s1.len() as int;
        let ghost l2 = s2.len() as int;
        let mut r: Vec<(A, B, C)> = Vec::new();
        let mut i: usize = 0;
        proof {
            assert(((0 as int) * l1) * l2 == 0) by (nonlinear_arith);
        }
        while i < self.0.len()
            invariant
                self.0@ == s0 && self.1@ == s1 && self.2@ == s2,
                l0 == s0.len() && l1 == s1.len() && l2 == s2.len(),
                i <= l0,
                r@.len() == (i * l1) * l2,
                forall|n: int| 0 <= n < r@.len() ==> r@[n] == cart3(s0, s1, s2)[n],
            decreases l0 - i,
        {
            let mut j: usize = 0;
            while j < self.1.len()
                invariant
                    self.0@ == s0 && self.1@ == s1 && self.2@ == s2,
                    l0 == s0.len() && l1 == s1.len() && l2 == s2.len(),
                    i < l0,
                    j <= l1,
                    r@.len() == (i * l1 + j) * l2,
                    forall|n: int| 0 <= n < r@.len() ==> r@[n] == cart3(s0, s1, s2)[n],
                decreases l1 - j,
            {
                let mut k: usize = 0;
                while k < self.2.len()
                    invariant
                        self.0@ == s0 && self.1@ == s1 && self.2@ == s2,
                        l0 == s0.len() && l1 == s1.len() && l2 == s2.len(),
                        i < l0,
                        j < l1,
                        k <= l2,
                        r@.len() == (i * l1 + j) * l2 + k,
                        forall|n: int| 0 <= n < r@.len() ==> r@[n] == cart3(s0, s1, s2)[n],
                    decreases l2 - k,
                {
                    proof {
                        lemma_flat_index_bound(l0, l1, l2, i as int, j as int, k as int);
                        lemma_flat_index_decompose(l1, l2, i as int, j as int, k as int);
                    }
                    r.push((self.0[i], self.1[j], self.2[k]));
                    k += 1;
                }
                proof {
                    assert((i * l1 + j) * l2 + l2 == (i * l1 + (j + 1)) * l2) by (nonlinear_arith);
                }
                j += 1;
            }
            proof {
                assert((i * l1 + l1) * l2 == ((i + 1) * l1) * l2) by (nonlinear_arith);
            }
            i += 1;
        }
        proof {
            assert(r@ =~= cart3(s0, s1, s2));
        }
        r
    }

    /// Whether this quality matches the selector `restriction`: true when
    /// the selector is blank, and otherwise when at least one feature tuple
    /// this quality occupies is admitted by the selector. A quality with an
    /// empty axis occupies no tuple, so it matches only the blank selector.
    pub fn meets_restrictions(&self, restriction: &PhonemeSelector<A, B, C>) -> (r: bool)
        ensures
            r == self.matches_spec(*restriction),
    {
        if restriction.0.len() == 0 && restriction.1.len() == 0 && restriction.2.len() == 0 {
            return true;
        }
        if self.0.len() == 0 || self.1.len() == 0 || self.2.len() == 0 {
            proof {
                assert forall|a: A, b: B, c: C|
                    !(#[trigger] self.covers(a, b, c) && restriction.admits(a, b, c)) by {
                    assert(!self.covers(a, b, c));
                }
            }
            return false;
        }
        let h0 = if restriction.0.len() == 0 {
            true
        } else {
            axes_intersect(&self.0, &restriction.0)
        };
        let h1 = if restriction.1.len() == 0 {
            true
        } else {
            axes_intersect(&self.1, &restriction.1)
        };
        let h2 = if restriction.2.len() == 0 {
            true
        } else {
            axes_intersect(&self.2, &restriction.2)
        };
        let r = h0 && h1 && h2;
        proof {
            if r {
                let a = if restriction.0@.len() == 0 {
                    self.0@[0]
                } else {
                    choose|x: A| #[trigger] self.0@.contains(x) && restriction.0@.contains(x)
                };
                let b = if restriction.1@.len() == 0 {
                    self.1@[0]
                } else {
                    choose|x: B| #[trigger] self.1@.contains(x) && restriction.1@.contains(x)
                };
                let c = if restriction.2@.len() == 0 {
                    self.2@[0]
                } else {
                    choose|x: C| #[trigger] self.2@.contains(x) && restriction.2@.contains(x)
                };
                assert(self.0@.contains(self.0@[0]));
                assert(self.1@.contains(self.1@[0]));
                assert(self.2@.contains(self.2@[0]));
                assert(self.covers(a, b, c) && restriction.admits(a, b, c));
            } else {
                assert forall|a: A, b: B, c: C|
                    !(#[trigger] self.covers(a, b, c) && restriction.admits(a, b, c)) by {
                    if self.covers(a, b, c) && restriction.admits(a, b, c) {
                        if !h0 {
                            assert(self.0@.contains(a) && restriction.0@.contains(a));
                        } else if !h1 {
                            assert(self.1@.contains(b) && restriction.1@.contains(b));
                        } else {
                            assert(self.2@.contains(c) && restriction.2@.contains(c));
                        }
                    }
                }
            }
        }
        r
    }

    /// The raw, index-based form of this quality: three lists of stable
    /// variant indices, the wire format for persistence.
    pub fn into_raw(&self) -> (r: (Vec<usize>, Vec<usize>, Vec<usize>))
        ensures
            r.0@.len() == self.0@.len(),
            r.1@.len() == self.1@.len(),
            r.2@.len() == self.2@.len(),
            forall|k: int| 0 <= k < r.0@.len() ==> r.0@[k] as nat == (#[trigger] self.0@[k]).idx(),
            forall|k: int| 0 <= k < r.1@.len() ==> r.1@[k] as nat == (#[trigger] self.1@[k]).idx(),
            forall|k: int| 0 <= k < r.2@.len() ==> r.2@[k] as nat == (#[trigger] self.2@[k]).idx(),
    {
        (into_raw(&self.0), into_raw(&self.1), into_raw(&self.2))
    }

    /// Rebuilds a quality from its raw form, or reports the first axis
    /// holding an index that denotes no variant: `Some` exactly when every
    /// index is valid for its axis type.
    pub fn from_raw(raw: (Vec<usize>, Vec<usize>, Vec<usize>)) -> (r: Option<Self>)
        ensures
            r is Some <==> raw_axis_valid::<A>(raw.0@) && raw_axis_valid::<B>(raw.1@)
                && raw_axis_valid::<C>(raw.2@),
            r is Some ==> {
                let q = r.unwrap();
                &&& q.0@.len() == raw.0@.len()
                &&& q.1@.len() == raw.1@.len()
                &&& q.2@.len() == raw.2@.len()
                &&& forall|k: int|
                    0 <= k < raw.0@.len() ==> (#[trigger] q.0@[k]).idx() == raw.0@[k] as nat
                &&& forall|k: int|
                    0 <= k < raw.1@.len() ==> (#[trigger] q.1@[k]).idx() == raw.1@[k] as nat
                &&& forall|k: int|
                    0 <= k < raw.2@.len() ==> (#[trigger] q.2@[k]).idx() == raw.2@[k] as nat
            },
    {
        let (r0, r1, r2) = raw;
        let v0 = from_raw::<A>(&r0);
        let v1 = from_raw::<B>(&r1);
        let v2 = from_raw::<C>(&r2);
        match (v0, v1, v2) {
            (Some(a), Some(b), Some(c)) => Some(PhonemeQuality(a, b, c)),
            _ => None,
        }
    }
}

/// `raw` is the index-wise encoding of the axis values `vals`.
pub open spec fn raw_encodes<T: Category>(raw: Seq<usize>, vals: Seq<T>) -> bool {
    raw.len() == vals.len() && forall|k: int|
        0 <= k < raw.len() ==> ((#[trigger] raw[k]) as nat) == vals[k].idx()
}

/// Every raw index in the sequence denotes a variant of the axis type.
pub open spec fn raw_axis_valid<T: Category>(raw: Seq<usize>) -> bool {
    forall|k: int| 0 <= k < raw.len() ==> ((#[trigger] raw[k]) as nat) < T::card()
}

/// The stable indices of a list of axis values.
pub fn into_raw<T: Category>(quality: &Vec<T>) -> (r: Vec<usize>)
    ensures
        r@.len() == quality@.len(),
        forall|k: int| 0 <= k < r@.len() ==> r@[k] as nat == (#[trigger] quality@[k]).idx(),
{
    let mut r: Vec<usize> = Vec::new();
    let mut i: usize = 0;
    while i < quality.len()
        invariant
            i <= quality@.len(),
            r@.len() == i,
            forall|k: int| 0 <= k < i ==> r@[k] as nat == (#[trigger] quality@[k]).idx(),
        decreases quality@.len() - i,
    {
        r.push(quality[i].index());
        i += 1;
    }
    r
}

/// Whether every index in the list denotes a variant of the axis type.
pub fn raw_axis_ok<T: Category>(raw: &Vec<usize>) -> (r: bool)
    ensures
        r == raw_axis_valid::<T>(raw@),
{
    let card = T::cardinality();
    let mut i: usize = 0;
    while i < raw.len()
        invariant
            card as nat == T::card(),
            i <= raw@.len(),
            forall|k: int| 0 <= k < i ==> ((#[trigger] raw@[k]) as nat) < T::card(),
        decreases raw@.len() - i,
    {
        if raw[i] >= card {
            return false;
        }
        i += 1;
    }
    true
}

/// The axis values denoted by a list of stable indices, or `None` if some
/// index denotes no variant. Persisted data holding such an index must be
/// rejected, never silently patched.
pub fn from_raw<T: Category>(raw: &Vec<usize>) -> (r: Option<Vec<T>>)
    ensures
        r is Some <==> raw_axis_valid::<T>(raw@),
        r is Some ==> {
            let v = r.unwrap();
            &&& v@.len() == raw@.len()
            &&& forall|k: int| 0 <= k < raw@.len() ==> (#[trigger] v@[k]).idx() == raw@[k] as nat
        },
{
    let mut v: Vec<T> = Vec::new();
    let mut i: usize = 0;
    while i < raw.len()
        invariant
            i <= raw@.len(),
            v@.len() == i,
            forall|k: int| 0 <= k < i ==> ((#[trigger] raw@[k]) as nat) < T::card(),
            forall|k: int| 0 <= k < i ==> (#[trigger] v@[k]).idx() == raw@[k] as nat,
        decreases raw@.len() - i,
    {
        match T::from_index(raw[i]) {
            Some(value) => {
                v.push(value);
            },
            None => {
                return None;
            },
        }
        i += 1;
    }
    Some(v)
}

/// The selector wildcard law: a quality that carries at least one value on
/// every axis matches the blank selector.
pub proof fn lemma_blank_selector_matches<A: Category, B: Category, C: Category>(
    quality: PhonemeQuality<A, B, C>,
    selector: PhonemeSelector<A, B, C>,
)
    requires
        quality.is_concrete(),
        selector.is_blank(),
    ensures
        quality.matches_spec(selector),
{
}

/// Rebuilding axis values from raw indices restores the original values:
/// if `back` has the same length as `orig` and agrees with it on every
/// stable index, the two are equal.
pub proof fn lemma_raw_round_trip<T: Category>(orig: Seq<T>, back: Seq<T>)
    requires
        back.len() == orig.len(),
        forall|k: int| 0 <= k < orig.len() ==> (#[trigger] back[k]).idx() == orig[k].idx(),
    ensures
        back =~= orig,
{
    assert forall|k: int| 0 <= k < orig.len() implies back[k] == orig[k] by {
        back[k].lemma_idx_injective(orig[k]);
    }
}


} // verus!
