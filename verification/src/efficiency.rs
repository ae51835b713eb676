//! Ranking of upgrade steps by gain per unit of cost, and the rule that picks
//! one step out of a roster.
use vstd::prelude::*;

verus! {

/// A gain set against a cost. A ratio with cost zero is infinite, whatever
/// its gain.
pub struct Ratio {
    pub gain: int,
    pub cost: int,
}

impl Ratio {
    pub open spec fn wf(self) -> bool {
        &&& self.gain >= 0
        &&& self.cost >= 0
    }

    /// `self` is strictly greater than `other`: an infinite ratio exceeds
    /// every finite one and no infinite one; finite ratios compare as
    /// fractions.
    pub open spec fn exceeds(self, other: Ratio) -> bool {
        if self.cost == 0 {
            other.cost != 0
        } else {
            other.cost != 0 && self.gain * other.cost > other.gain * self.cost
        }
    }
}

/// The efficiency of a step: its score gain and the cost it is measured by.
#[derive(Clone, Copy, Debug, PartialEq, Eq)]
pub struct Efficiency {
    pub gain: u64,
    pub cost: u64,
}

impl View for Efficiency {
    type V = Ratio;

    open spec fn view(&self) -> Ratio {
        Ratio { gain: self.gain as int, cost: self.cost as int }
    }
}

impl Efficiency {
    /// Whether this efficiency is strictly greater than `other`.
    pub fn exceeds(&self, other: &Efficiency) -> (greater: bool)
        ensures
            greater == self@.exceeds(other@),
    {
        if self.cost == 0 {
            other.cost != 0
        } else if other.cost == 0 {
            false
        } else {
            assert(self.gain * other.cost <= 0xffff_ffff_ffff_ffff * 0xffff_ffff_ffff_ffff
                && other.gain * self.cost <= 0xffff_ffff_ffff_ffff * 0xffff_ffff_ffff_ffff)
                by (nonlinear_arith)
                requires
                    0 <= self.gain <= 0xffff_ffff_ffff_ffff,
                    0 <= self.cost <= 0xffff_ffff_ffff_ffff,
                    0 <= other.gain <= 0xffff_ffff_ffff_ffff,
                    0 <= other.cost <= 0xffff_ffff_ffff_ffff,
            ;
            (self.gain as u128) * (other.cost as u128) > (other.gain as u128) * (self.cost as u128)
        }
    }
}

/// No ratio exceeds itself, and of two ratios at most one exceeds the other.
pub proof fn lemma_exceeds_asymmetric(a: Ratio, b: Ratio)
    requires
        a.exceeds(b),
    ensures
        !b.exceeds(a),
{
}

/// A ratio that exceeds `b` exceeds everything that does not exceed `b`.
pub proof fn lemma_exceeds_chain(a: Ratio, b: Ratio, c: Ratio)
    requires
        a.wf(),
        b.wf(),
        c.wf(),
        a.exceeds(b),
        !c.exceeds(b),
    ensures
        a.exceeds(c),
{
    if a.cost != 0 {
        let (ag, ac, bg, bc, cg, cc) = (a.gain, a.cost, b.gain, b.cost, c.gain, c.cost);
        assert(ag * cc > cg * ac) by (nonlinear_arith)
            requires
                ac > 0,
                bc > 0,
                cc > 0,
                ag * bc > bg * ac,
                cg * bc <= bg * cc,
        {
            assert((ag * bc) * cc > (bg * ac) * cc);
            assert((cg * bc) * ac <= (bg * cc) * ac);
            assert((bg * ac) * cc == (bg * cc) * ac);
            assert((ag * bc) * cc == bc * (ag * cc));
            assert((cg * bc) * ac == bc * (cg * ac));
            assert(bc * (ag * cc) > bc * (cg * ac));
        }
    }
}

/// Among the first `n` keys, `i` is the first of those that no other exceeds:
/// it exceeds every key before it, and no key after it exceeds it.
pub open spec fn leads_among(keys: Seq<Option<Ratio>>, n: int, i: int) -> bool {
    &&& 0 <= i < n <= keys.len()
    &&& keys[i] is Some
    &&& forall|j: int|
        0 <= j < i && (#[trigger] keys[j]) is Some ==> keys[i]->0.exceeds(keys[j]->0)
    &&& forall|j: int|
        i < j < n && (#[trigger] keys[j]) is Some ==> !keys[j]->0.exceeds(keys[i]->0)
}

/// `best` is the pick among the first `n` keys: the leading one, or none
/// where no key is there.
pub open spec fn picked_among(keys: Seq<Option<Ratio>>, n: int, best: Option<int>) -> bool {
    match best {
        Some(i) => leads_among(keys, n, i),
        None => 0 <= n <= keys.len() && forall|j: int| 0 <= j < n ==> (#[trigger] keys[j]) is None,
    }
}

/// The pick out of a roster of keys, one per slot, `None` marking a slot
/// without a step on offer: the earliest key of greatest efficiency.
pub open spec fn best_of(keys: Seq<Option<Ratio>>) -> Option<int> {
    if exists|i: int| leads_among(keys, keys.len() as int, i) {
        Some(choose|i: int| leads_among(keys, keys.len() as int, i))
    } else {
        None
    }
}

/// The pick after one more key has been seen: the new key replaces the pick
/// only where it exceeds it.
pub open spec fn advance(keys: Seq<Option<Ratio>>, n: int, best: Option<int>) -> Option<int> {
    match (keys[n], best) {
        (None, _) => best,
        (Some(_), None) => Some(n),
        (Some(key), Some(i)) => if key.exceeds(keys[i]->0) {
            Some(n)
        } else {
            best
        },
    }
}

/// `advance` carries the pick from the first `n` keys to the first `n + 1`.
pub proof fn lemma_advance(keys: Seq<Option<Ratio>>, n: int, best: Option<int>)
    requires
        0 <= n < keys.len(),
        forall|j: int| 0 <= j < keys.len() && (#[trigger] keys[j]) is Some ==> keys[j]->0.wf(),
        picked_among(keys, n, best),
    ensures
        picked_among(keys, n + 1, advance(keys, n, best)),
{
    match (keys[n], best) {
        (Some(key), Some(i)) => {
            if key.exceeds(keys[i]->0) {
                assert forall|j: int| 0 <= j < n && (#[trigger] keys[j]) is Some implies key.exceeds(
                    keys[j]->0,
                ) by {
                    if j < i {
                        lemma_exceeds_asymmetric(keys[i]->0, keys[j]->0);
                    }
                    if j != i {
                        lemma_exceeds_chain(key, keys[i]->0, keys[j]->0);
                    }
                }
            }
        },
        _ => {},
    }
}

/// A roster of keys has at most one leader.
pub proof fn lemma_leader_unique(keys: Seq<Option<Ratio>>, i: int, j: int)
    requires
        leads_among(keys, keys.len() as int, i),
        leads_among(keys, keys.len() as int, j),
    ensures
        i == j,
{
    if i < j {
        assert(keys[i] is Some);
    } else if j < i {
        assert(keys[j] is Some);
    }
}

/// What was picked among all the keys is the pick of the roster.
pub proof fn lemma_picked_is_best(keys: Seq<Option<Ratio>>, best: Option<int>)
    requires
        picked_among(keys, keys.len() as int, best),
    ensures
        best_of(keys) == best,
{
    match best {
        Some(i) => {
            let chosen = choose|c: int| leads_among(keys, keys.len() as int, c);
            lemma_leader_unique(keys, i, chosen);
        },
        None => {
            assert forall|c: int| !leads_among(keys, keys.len() as int, c) by {
                if 0 <= c < keys.len() {
                    assert(keys[c] is None);
                }
            }
        },
    }
}

/// Among any first `n` keys there is a pick.
pub proof fn lemma_pick_exists(keys: Seq<Option<Ratio>>, n: int) -> (best: Option<int>)
    requires
        0 <= n <= keys.len(),
        forall|j: int| 0 <= j < keys.len() && (#[trigger] keys[j]) is Some ==> keys[j]->0.wf(),
    ensures
        picked_among(keys, n, best),
    decreases n,
{
    if n == 0 {
        None
    } else {
        let before = lemma_pick_exists(keys, n - 1);
        lemma_advance(keys, n - 1, before);
        advance(keys, n - 1, before)
    }
}

/// The roster has a pick exactly where some slot has a step on offer, and
/// the pick is a slot with a step that leads the roster.
pub proof fn lemma_best_of(keys: Seq<Option<Ratio>>)
    requires
        forall|j: int| 0 <= j < keys.len() && (#[trigger] keys[j]) is Some ==> keys[j]->0.wf(),
    ensures
        picked_among(keys, keys.len() as int, best_of(keys)),
        best_of(keys) is None <==> forall|j: int| 0 <= j < keys.len() ==> (#[trigger] keys[j]) is None,
{
    let best = lemma_pick_exists(keys, keys.len() as int);
    lemma_picked_is_best(keys, best);
    if best is Some {
        assert(keys[best->0] is Some);
    }
}

} // verus!
