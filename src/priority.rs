//! The fit classes of an (image, output) pair and their total order.

use vstd::prelude::*;

verus! {

/// How well an image suits an output; smaller is better.
///
/// Factors are exact fractions `num / den` of two pixel areas.
#[derive(Clone, Copy, Debug)]
pub enum Priority {
    BestFit,
    Downsize { num: u64, den: u64 },
    Upsize { num: u64, den: u64 },
    Any,
}

impl Priority {
    /// Factors have a positive denominator.
    pub open spec fn wf(self) -> bool {
        match self {
            Priority::Downsize { num, den } => den > 0,
            Priority::Upsize { num, den } => den > 0,
            _ => true,
        }
    }

    /// The class rank: BestFit, Downsize, Upsize, Any.
    pub open spec fn rank_spec(self) -> int {
        match self {
            Priority::BestFit => 1,
            Priority::Downsize { .. } => 2,
            Priority::Upsize { .. } => 3,
            Priority::Any => 4,
        }
    }

    /// Numerator of the factor (classes without a factor count as 0/1).
    pub open spec fn num_spec(self) -> int {
        match self {
            Priority::Downsize { num, den } => num as int,
            Priority::Upsize { num, den } => num as int,
            _ => 0,
        }
    }

    pub open spec fn den_spec(self) -> int {
        match self {
            Priority::Downsize { num, den } => den as int,
            Priority::Upsize { num, den } => den as int,
            _ => 1,
        }
    }

    /// `self` ranks strictly better than `other`: a better class, or the same
    /// class with a smaller factor.
    pub open spec fn better(self, other: Priority) -> bool {
        self.rank_spec() < other.rank_spec() || (self.rank_spec() == other.rank_spec()
            && self.num_spec() * other.den_spec() < other.num_spec() * self.den_spec())
    }

    /// Same class and equal factor.
    pub open spec fn same(self, other: Priority) -> bool {
        self.rank_spec() == other.rank_spec() && self.num_spec() * other.den_spec()
            == other.num_spec() * self.den_spec()
    }

    pub open spec fn ordering(self, other: Priority) -> std::cmp::Ordering {
        if self.better(other) {
            std::cmp::Ordering::Less
        } else if self.same(other) {
            std::cmp::Ordering::Equal
        } else {
            std::cmp::Ordering::Greater
        }
    }

    pub fn get_rank(&self) -> (r: u32)
        ensures
            r == self.rank_spec(),
    {
        match self {
            Priority::BestFit => 1,
            Priority::Downsize { .. } => 2,
            Priority::Upsize { .. } => 3,
            Priority::Any => 4,
        }
    }

    fn fraction(&self) -> (r: (u64, u64))
        ensures
            r.0 == self.num_spec(),
            r.1 == self.den_spec(),
    {
        match self {
            Priority::Downsize { num, den } => (*num, *den),
            Priority::Upsize { num, den } => (*num, *den),
            _ => (0, 1),
        }
    }

    /// The factors' cross products `num * other.den` and `other.num * den`.
    fn cross_products(&self, other: &Priority) -> (r: (u128, u128))
        ensures
            r.0 == self.num_spec() * other.den_spec(),
            r.1 == other.num_spec() * self.den_spec(),
    {
        let (an, ad) = self.fraction();
        let (bn, bd) = other.fraction();
        assert((an as u128) * (bd as u128) <= u128::MAX) by (nonlinear_arith)
            requires
                an <= u64::MAX,
                bd <= u64::MAX,
        ;
        assert((bn as u128) * (ad as u128) <= u128::MAX) by (nonlinear_arith)
            requires
                bn <= u64::MAX,
                ad <= u64::MAX,
        ;
        ((an as u128) * (bd as u128), (bn as u128) * (ad as u128))
    }

    /// Compares two priorities; `Less` means `self` is the better fit.
    pub fn cmp(&self, other: &Priority) -> (r: std::cmp::Ordering)
        ensures
            r == self.ordering(*other),
    {
        let ra = self.get_rank();
        let rb = other.get_rank();
        if ra < rb {
            return std::cmp::Ordering::Less;
        }
        if rb < ra {
            return std::cmp::Ordering::Greater;
        }
        let (left, right) = self.cross_products(other);
        if left < right {
            std::cmp::Ordering::Less
        } else if left == right {
            std::cmp::Ordering::Equal
        } else {
            std::cmp::Ordering::Greater
        }
    }
}

impl PartialEq for Priority {
    fn eq(&self, other: &Priority) -> (r: bool) {
        let ra = self.get_rank();
        let rb = other.get_rank();
        if ra != rb {
            return false;
        }
        let (left, right) = self.cross_products(other);
        left == right
    }
}

impl vstd::std_specs::cmp::PartialEqSpecImpl for Priority {
    open spec fn obeys_eq_spec() -> bool {
        true
    }

    open spec fn eq_spec(&self, other: &Priority) -> bool {
        self.same(*other)
    }
}

impl PartialOrd for Priority {
    fn partial_cmp(&self, other: &Priority) -> (r: Option<std::cmp::Ordering>) {
        Some(self.cmp(other))
    }
}

impl vstd::std_specs::cmp::PartialOrdSpecImpl for Priority {
    open spec fn obeys_partial_cmp_spec() -> bool {
        true
    }

    open spec fn partial_cmp_spec(&self, other: &Priority) -> Option<std::cmp::Ordering> {
        Some(self.ordering(*other))
    }
}

/// `a/b <= c/d <= e/f` gives `a/b <= e/f`, strictly if either step is strict
/// (all denominators positive).
proof fn lemma_fraction_chain(a: int, b: int, c: int, d: int, e: int, f: int)
    requires
        b > 0,
        d > 0,
        f > 0,
    ensures
        (a * d <= c * b && c * f <= e * d) ==> a * f <= e * b,
        (a * d <= c * b && c * f <= e * d && (a * d < c * b || c * f < e * d)) ==> a * f < e
            * b,
{
    if a * d <= c * b && c * f <= e * d {
        assert(a * d * f <= c * b * f) by (nonlinear_arith)
            requires
                a * d <= c * b,
                f > 0,
        ;
        assert(c * f * b <= e * d * b) by (nonlinear_arith)
            requires
                c * f <= e * d,
                b > 0,
        ;
        assert(a * d < c * b ==> a * d * f < c * b * f) by (nonlinear_arith)
            requires
                f > 0,
        ;
        assert(c * f < e * d ==> c * f * b < e * d * b) by (nonlinear_arith)
            requires
                b > 0,
        ;
        assert(c * b * f == c * f * b) by (nonlinear_arith);
        assert(a * d * f == (a * f) * d) by (nonlinear_arith);
        assert(e * d * b == (e * b) * d) by (nonlinear_arith);
        assert((a * f) * d <= (e * b) * d ==> a * f <= e * b) by (nonlinear_arith)
            requires
                d > 0,
        ;
        assert((a * f) * d < (e * b) * d ==> a * f < e * b) by (nonlinear_arith)
            requires
                d > 0,
        ;
    }
}

/// Ranking is transitive: if `a` is better than `b` and `b` better than `c`,
/// then `a` is better than `c`.
pub proof fn lemma_better_transitive(a: Priority, b: Priority, c: Priority)
    requires
        a.wf(),
        b.wf(),
        c.wf(),
        a.better(b),
        b.better(c),
    ensures
        a.better(c),
{
    if a.rank_spec() == b.rank_spec() && b.rank_spec() == c.rank_spec() {
        lemma_fraction_chain(
            a.num_spec(),
            a.den_spec(),
            b.num_spec(),
            b.den_spec(),
            c.num_spec(),
            c.den_spec(),
        );
    }
}

/// For any two priorities exactly one of `a < b`, `a == b`, `a > b` holds,
/// where `==` is the priorities' own equality (same class, equal factor).
pub proof fn lemma_trichotomy(a: Priority, b: Priority)
    requires
        a.wf(),
        b.wf(),
    ensures
        a.better(b) || a.same(b) || b.better(a),
        !(a.better(b) && a.same(b)),
        !(a.better(b) && b.better(a)),
        !(a.same(b) && b.better(a)),
{
}

/// Equal priorities relate alike to every third one.
pub proof fn lemma_same_substitutes(a: Priority, b: Priority, c: Priority)
    requires
        a.wf(),
        b.wf(),
        c.wf(),
        a.same(b),
    ensures
        b.same(a),
        a.better(c) <==> b.better(c),
        c.better(a) <==> c.better(b),
        a.same(c) <==> b.same(c),
{
    let (an, ad, bn, bd, cn, cd) = (
        a.num_spec(),
        a.den_spec(),
        b.num_spec(),
        b.den_spec(),
        c.num_spec(),
        c.den_spec(),
    );
    if a.rank_spec() == c.rank_spec() {
        lemma_fraction_chain(an, ad, bn, bd, cn, cd);
        lemma_fraction_chain(bn, bd, an, ad, cn, cd);
        lemma_fraction_chain(cn, cd, an, ad, bn, bd);
        lemma_fraction_chain(cn, cd, bn, bd, an, ad);
        lemma_fraction_chain(an, ad, cn, cd, bn, bd);
        lemma_fraction_chain(bn, bd, cn, cd, an, ad);
    }
}

} // verus!
