//! Hits in order: the greater first key first, then the greater second key, then as found.

use crate::numeric::Real;
use vstd::prelude::*;

verus! {

#[derive(Debug, PartialEq)]
pub struct QueryHit {
    pub id: String,
    pub reason: String,
    /// Window coordinates, both axes from 0 to 1.
    pub screen: Option<(Real, Real)>,
    pub depth: Option<Real>,
    pub occluded: Option<bool>,
}

/// What a hit says.
#[verifier::ext_equal]
pub struct HitModel {
    pub id: Seq<char>,
    pub reason: Seq<char>,
    pub screen: Option<(Real, Real)>,
    pub depth: Option<Real>,
    pub occluded: Option<bool>,
}

impl View for QueryHit {
    type V = HitModel;

    open spec fn view(&self) -> HitModel {
        HitModel {
            id: self.id@,
            reason: self.reason@,
            screen: self.screen,
            depth: self.depth,
            occluded: self.occluded,
        }
    }
}

pub open spec fn hit_views(s: Seq<QueryHit>) -> Seq<HitModel> {
    s.map_values(|h: QueryHit| h@)
}

/// A hit without a projection.
pub open spec fn plain_hit(id: Seq<char>, reason: Seq<char>) -> HitModel {
    HitModel { id, reason, screen: None, depth: None, occluded: None }
}

impl QueryHit {
    pub fn new(id: &str, reason: &str) -> (r: Self)
        ensures
            r@ == plain_hit(id@, reason@),
    {
        QueryHit {
            id: id.to_owned(),
            reason: reason.to_owned(),
            screen: None,
            depth: None,
            occluded: None,
        }
    }
}

/// A hit with the two numbers that it is ranked by.
#[verifier::ext_equal]
pub struct Scored {
    pub major: Real,
    pub minor: Real,
    pub hit: HitModel,
}

/// Neither number is less than the other.
pub open spec fn level(a: Real, b: Real) -> bool {
    !a.less(b) && !b.less(a)
}

/// `a` ranks strictly before `b`.
pub open spec fn precedes(a: Scored, b: Scored) -> bool {
    b.major.less(a.major) || (level(a.major, b.major) && b.minor.less(a.minor))
}

/// A ranked list with one more hit: behind all that it does not rank before.
pub open spec fn inserted(s: Seq<Scored>, x: Scored) -> Seq<Scored>
    decreases s.len(),
{
    if s.len() > 0 && precedes(x, s.last()) {
        inserted(s.drop_last(), x).push(s.last())
    } else {
        s.push(x)
    }
}

/// Hits in the order of their ranks.
pub open spec fn ranked(s: Seq<Scored>) -> Seq<Scored>
    decreases s.len(),
{
    if s.len() == 0 {
        s
    } else {
        inserted(ranked(s.drop_last()), s.last())
    }
}

/// Both numbers of a hit can be compared.
pub open spec fn comparable(x: Scored) -> bool {
    !x.major.is_nan() && !x.minor.is_nan()
}

/// No hit stands behind one that it ranks before.
pub open spec fn in_order(s: Seq<Scored>) -> bool {
    forall|i: int, j: int| #![trigger s[i], s[j]] 0 <= i < j < s.len() ==> !precedes(s[j], s[i])
}

proof fn inserted_order(s: Seq<Scored>, x: Scored)
    requires
        in_order(s),
        comparable(x),
        forall|k: int| 0 <= k < s.len() ==> comparable(#[trigger] s[k]),
    ensures
        in_order(inserted(s, x)),
        inserted(s, x).len() == s.len() + 1,
        inserted(s, x).to_multiset() == s.to_multiset().insert(x),
        forall|k: int| 0 <= k < inserted(s, x).len() ==> comparable(#[trigger] inserted(s, x)[k]),
        forall|k: int|
            0 <= k < inserted(s, x).len() ==> (#[trigger] inserted(s, x)[k]) == x || s.contains(
                inserted(s, x)[k],
            ),
    decreases s.len(),
{
    broadcast use vstd::seq_lib::group_to_multiset_ensures;

    if s.len() > 0 && precedes(x, s.last()) {
        let front = s.drop_last();
        inserted_order(front, x);
        let r = inserted(front, x);
        let all = inserted(s, x);
        assert(s =~= front.push(s.last()));
        assert forall|k: int| 0 <= k < all.len() implies (#[trigger] all[k]) == x || s.contains(
            all[k],
        ) by {
            if k < r.len() {
                assert(all[k] == r[k]);
                if r[k] != x {
                    let m = choose|m: int| 0 <= m < front.len() && front[m] == r[k];
                    assert(s[m] == r[k]);
                }
            } else {
                assert(s[s.len() - 1] == all[k]);
            }
        }
        assert forall|i: int, j: int|
            #![trigger all[i], all[j]]
            0 <= i < j < all.len() implies !precedes(all[j], all[i]) by {
            if j == r.len() {
                assert(all[j] == s[s.len() - 1]);
                if r[i] != x {
                    let m = choose|m: int| 0 <= m < front.len() && front[m] == r[i];
                    assert(s[m] == r[i]);
                }
            } else {
                assert(all[i] == r[i] && all[j] == r[j]);
            }
        }
    } else {
        let all = s.push(x);
        assert forall|i: int, j: int|
            #![trigger all[i], all[j]]
            0 <= i < j < all.len() implies !precedes(all[j], all[i]) by {
            if j == s.len() {
                assert(all[i] == s[i]);
                assert(all[s.len() - 1] == s[s.len() - 1]);
                if i < s.len() - 1 {
                    assert(!precedes(s[s.len() - 1], s[i]));
                }
            } else {
                assert(all[i] == s[i] && all[j] == s[j]);
            }
        }
        assert forall|k: int| 0 <= k < all.len() implies (#[trigger] all[k]) == x || s.contains(
            all[k],
        ) by {
            if k < s.len() {
                assert(s[k] == all[k]);
            }
        }
    }
}

/// Ranking loses no hit, adds none, and leaves them in order, as long as all numbers can be
/// compared.
pub proof fn ranking_is_a_sorted_permutation(s: Seq<Scored>)
    requires
        forall|k: int| 0 <= k < s.len() ==> comparable(#[trigger] s[k]),
    ensures
        ranked(s).to_multiset() == s.to_multiset(),
        in_order(ranked(s)),
        forall|k: int| 0 <= k < ranked(s).len() ==> comparable(#[trigger] ranked(s)[k]),
    decreases s.len(),
{
    broadcast use vstd::seq_lib::group_to_multiset_ensures;

    if s.len() > 0 {
        let front = s.drop_last();
        assert forall|k: int| 0 <= k < front.len() implies comparable(#[trigger] front[k]) by {
            assert(front[k] == s[k]);
        }
        ranking_is_a_sorted_permutation(front);
        inserted_order(ranked(front), s.last());
        assert(s =~= front.push(s.last()));
    }
}

/// Inserting keeps the order of what was there and puts the new hit behind its equals.
proof fn inserted_keeps_ties(s: Seq<Scored>, x: Scored, at: Seq<int>, n: int) -> (to: Seq<int>)
    requires
        at.len() == s.len(),
        forall|k: int| 0 <= k < at.len() ==> 0 <= #[trigger] at[k] < n,
        forall|i: int, j: int|
            #![trigger s[i], s[j]]
            0 <= i < j < s.len() && !precedes(s[i], s[j]) && !precedes(s[j], s[i]) ==> at[i]
                < at[j],
    ensures
        to.len() == inserted(s, x).len(),
        inserted(s, x).len() == s.len() + 1,
        forall|k: int|
            0 <= k < to.len() ==> ((#[trigger] to[k]) == n && inserted(s, x)[k] == x) || (exists|
                m: int,
            |
                0 <= m < s.len() && at[m] == to[k] && s[m] == inserted(s, x)[k]),
        forall|i: int, j: int|
            #![trigger inserted(s, x)[i], inserted(s, x)[j]]
            0 <= i < j < to.len() && !precedes(inserted(s, x)[i], inserted(s, x)[j]) && !precedes(
                inserted(s, x)[j],
                inserted(s, x)[i],
            ) ==> to[i] < to[j],
    decreases s.len(),
{
    let all = inserted(s, x);
    if s.len() > 0 && precedes(x, s.last()) {
        let front = s.drop_last();
        let before = at.drop_last();
        assert forall|i: int, j: int|
            #![trigger front[i], front[j]]
            0 <= i < j < front.len() && !precedes(front[i], front[j]) && !precedes(
                front[j],
                front[i],
            ) implies before[i] < before[j] by {
            assert(front[i] == s[i] && front[j] == s[j]);
        }
        let r = inserted_keeps_ties(front, x, before, n);
        let to = r.push(at.last());
        assert forall|k: int| 0 <= k < to.len() implies ((#[trigger] to[k]) == n && all[k] == x)
            || (exists|m: int| 0 <= m < s.len() && at[m] == to[k] && s[m] == all[k]) by {
            if k < r.len() {
                assert(to[k] == r[k]);
                if !(r[k] == n && all[k] == x) {
                    let m = choose|m: int|
                        0 <= m < front.len() && before[m] == r[k] && front[m] == inserted(
                            front,
                            x,
                        )[k];
                    assert(at[m] == to[k] && s[m] == all[k]);
                }
            } else {
                assert(at[s.len() - 1] == to[k] && s[s.len() - 1] == all[k]);
            }
        }
        assert forall|i: int, j: int|
            #![trigger all[i], all[j]]
            0 <= i < j < to.len() && !precedes(all[i], all[j]) && !precedes(
                all[j],
                all[i],
            ) implies to[i] < to[j] by {
            let f = inserted(front, x);
            assert(all[i] == f[i]);
            if j < r.len() {
                assert(all[j] == f[j]);
            } else {
                assert(all[j] == s[s.len() - 1]);
                assert(to[i] == r[i]);
                if !(r[i] == n && f[i] == x) {
                    let m = choose|m: int|
                        0 <= m < front.len() && before[m] == r[i] && front[m] == f[i];
                    assert(s[m] == all[i]);
                    assert(at[m] < at[s.len() - 1]);
                }
            }
        }
        to
    } else {
        let to = at.push(n);
        assert forall|k: int| 0 <= k < to.len() implies ((#[trigger] to[k]) == n && all[k] == x)
            || (exists|m: int| 0 <= m < s.len() && at[m] == to[k] && s[m] == all[k]) by {
            if k < s.len() {
                assert(at[k] == to[k] && s[k] == all[k]);
            }
        }
        assert forall|i: int, j: int|
            #![trigger all[i], all[j]]
            0 <= i < j < to.len() && !precedes(all[i], all[j]) && !precedes(
                all[j],
                all[i],
            ) implies to[i] < to[j] by {
            assert(all[i] == s[i]);
            if j < s.len() {
                assert(all[j] == s[j]);
            } else {
                assert(0 <= at[i] < n);
            }
        }
        to
    }
}

/// Hits that rank alike stay in the order in which they were found: `from[k]` is where the
/// hit at place `k` came from.
pub proof fn ranking_is_stable(s: Seq<Scored>) -> (from: Seq<int>)
    ensures
        from.len() == ranked(s).len(),
        ranked(s).len() == s.len(),
        forall|k: int|
            0 <= k < from.len() ==> 0 <= #[trigger] from[k] < s.len() && ranked(s)[k] == s[from[k]],
        forall|i: int, j: int|
            #![trigger ranked(s)[i], ranked(s)[j]]
            0 <= i < j < from.len() && !precedes(ranked(s)[i], ranked(s)[j]) && !precedes(
                ranked(s)[j],
                ranked(s)[i],
            ) ==> from[i] < from[j],
    decreases s.len(),
{
    if s.len() == 0 {
        Seq::empty()
    } else {
        let front = s.drop_last();
        let at = ranking_is_stable(front);
        let r = ranked(front);
        let n = s.len() - 1;
        let from = inserted_keeps_ties(r, s.last(), at, n);
        assert forall|k: int| 0 <= k < from.len() implies 0 <= #[trigger] from[k] < s.len()
            && ranked(s)[k] == s[from[k]] by {
            if !(from[k] == n && inserted(r, s.last())[k] == s.last()) {
                let m = choose|m: int|
                    0 <= m < r.len() && at[m] == from[k] && r[m] == inserted(r, s.last())[k];
                assert(0 <= at[m] < front.len() && r[m] == front[at[m]]);
                assert(front[at[m]] == s[at[m]]);
            }
        }
        from
    }
}

proof fn inserted_at(s: Seq<Scored>, x: Scored, p: int)
    requires
        0 <= p <= s.len(),
        forall|k: int| p <= k < s.len() ==> precedes(x, #[trigger] s[k]),
        p == 0 || !precedes(x, s[p - 1]),
    ensures
        inserted(s, x) == s.insert(p, x),
    decreases s.len(),
{
    if p < s.len() {
        assert(precedes(x, s[s.len() - 1]));
        let front = s.drop_last();
        assert forall|k: int| p <= k < front.len() implies precedes(x, #[trigger] front[k]) by {
            assert(front[k] == s[k]);
        }
        inserted_at(front, x, p);
        assert(front.insert(p, x).push(s.last()) =~= s.insert(p, x));
    } else {
        assert(s.insert(p, x) =~= s.push(x));
    }
}

/// A ranked list of hits under construction.
pub struct Ranking {
    keys: Vec<(Real, Real)>,
    hits: Vec<QueryHit>,
}

impl View for Ranking {
    type V = Seq<Scored>;

    closed spec fn view(&self) -> Seq<Scored> {
        Seq::new(
            self.hits@.len(),
            |k: int|
                Scored { major: self.keys@[k].0, minor: self.keys@[k].1, hit: self.hits@[k]@ },
        )
    }
}

impl Ranking {
    #[verifier::type_invariant]
    spec fn paired(self) -> bool {
        self.keys@.len() == self.hits@.len()
    }

    pub fn new() -> (r: Self)
        ensures
            r@ == Seq::<Scored>::empty(),
    {
        let r = Ranking { keys: Vec::new(), hits: Vec::new() };
        assert(r@ =~= Seq::<Scored>::empty());
        r
    }

    /// Puts a hit where it ranks.
    pub fn add(self, major: Real, minor: Real, hit: QueryHit) -> (r: Self)
        ensures
            r@ == inserted(self@, Scored { major, minor, hit: hit@ }),
    {
        proof {
            use_type_invariant(&self);
        }
        let ghost s = self@;
        let ghost x = Scored { major, minor, hit: hit@ };
        let Ranking { keys, hits } = self;
        let mut keys = keys;
        let mut hits = hits;
        let mut p: usize = hits.len();
        while p > 0 && Self::before(major, minor, keys[p - 1].0, keys[p - 1].1)
            invariant
                p <= hits.len(),
                keys.len() == hits.len(),
                s.len() == hits.len(),
                x.major == major,
                x.minor == minor,
                forall|k: int|
                    0 <= k < s.len() ==> (#[trigger] s[k]).major == keys@[k].0 && s[k].minor
                        == keys@[k].1,
                forall|k: int| p <= k < s.len() ==> precedes(x, #[trigger] s[k]),
            decreases p,
        {
            p -= 1;
        }
        proof {
            if p > 0 {
                assert(s[p - 1].major == keys@[p - 1].0);
            }
            inserted_at(s, x, p as int);
        }
        let ghost old_hits = hits@;
        keys.insert(p, (major, minor));
        hits.insert(p, hit);
        let r = Ranking { keys, hits };
        assert(r@ =~= s.insert(p as int, x));
        r
    }

    fn before(am: Real, an: Real, bm: Real, bn: Real) -> (r: bool)
        ensures
            r == (bm.less(am) || (level(am, bm) && bn.less(an))),
    {
        bm.lt(am) || (!am.lt(bm) && !bm.lt(am) && bn.lt(an))
    }

    /// The hits, first ranked first.
    pub fn into_hits(self) -> (r: Vec<QueryHit>)
        ensures
            hit_views(r@) == self@.map_values(|s: Scored| s.hit),
    {
        let ghost all = self@;
        let r = self.hits;
        assert(hit_views(r@) =~= all.map_values(|s: Scored| s.hit));
        r
    }
}

} // verus!
