use vstd::prelude::*;

verus! {

broadcast use vstd::seq_lib::seq_to_set_is_finite;

/// A set of part-of-speech identifiers: a morpheme matches when its part of speech is in it.
pub struct PosMatcher {
    ids: Vec<u16>,
}

impl View for PosMatcher {
    type V = Set<u16>;

    closed spec fn view(&self) -> Set<u16> {
        self.ids@.to_set()
    }
}

/// Whether `v` holds `x`.
fn holds(v: &Vec<u16>, x: u16) -> (r: bool)
    ensures
        r == v@.contains(x),
{
    let n = v.len();
    for i in 0..n
        invariant
            n == v.len(),
            forall|j: int| 0 <= j < i ==> v@[j] != x,
    {
        if v[i] == x {
            return true;
        }
    }
    false
}

impl PosMatcher {
    #[verifier::type_invariant]
    spec fn no_repeats(self) -> bool {
        self.ids@.no_duplicates()
    }

    /// The set of identifiers that a matcher matches is finite.
    pub proof fn lemma_finite(&self)
        ensures
            self@.finite(),
    {
    }

    /// The matcher that matches exactly the identifiers listed in `ids`.
    pub fn new(ids: Vec<u16>) -> (r: PosMatcher)
        ensures
            r@ == ids@.to_set(),
    {
        let mut out: Vec<u16> = Vec::new();
        let n = ids.len();
        for i in 0..n
            invariant
                n == ids.len(),
                out@.no_duplicates(),
                out@.to_set() =~= ids@.take(i as int).to_set(),
        {
            let x = ids[i];
            let ghost before = out@;
            assert(ids@.take(i + 1) =~= ids@.take(i as int).push(x));
            if !holds(&out, x) {
                out.push(x);
                assert(out@.to_set() =~= ids@.take(i + 1).to_set()) by {
                    assert forall|a: u16| out@.contains(a) implies ids@.take(i + 1).contains(a) by {
                        if a != x {
                            let k = choose|k: int| 0 <= k < out@.len() && #[trigger] out@[k] == a;
                            assert(before[k] == a);
                            assert(before.to_set().contains(a));
                            let m = choose|m: int|
                                0 <= m < i && #[trigger] ids@.take(i as int)[m] == a;
                            assert(ids@.take(i + 1)[m] == a);
                        } else {
                            assert(ids@.take(i + 1)[i as int] == a);
                        }
                    }
                    assert forall|a: u16| ids@.take(i + 1).contains(a) implies out@.contains(a) by {
                        let m = choose|m: int|
                            0 <= m < i + 1 && #[trigger] ids@.take(i + 1)[m] == a;
                        if m < i {
                            assert(ids@.take(i as int)[m] == a);
                            assert(ids@.take(i as int).to_set().contains(a));
                            assert(before.to_set().contains(a));
                            let k = choose|k: int| 0 <= k < before.len() && #[trigger] before[k] == a;
                            assert(out@[k] == a);
                        } else {
                            assert(out@[out@.len() - 1] == a);
                        }
                    }
                }
            } else {
                assert(out@.to_set() =~= ids@.take(i + 1).to_set()) by {
                    assert forall|a: u16| ids@.take(i + 1).contains(a) implies out@.contains(a) by {
                        let m = choose|m: int|
                            0 <= m < i + 1 && #[trigger] ids@.take(i + 1)[m] == a;
                        if m < i {
                            assert(ids@.take(i as int)[m] == a);
                            assert(ids@.take(i as int).to_set().contains(a));
                        }
                    }
                    assert forall|a: u16| out@.contains(a) implies ids@.take(i + 1).contains(a) by {
                        assert(out@.to_set().contains(a));
                        let m = choose|m: int|
                            0 <= m < i && #[trigger] ids@.take(i as int)[m] == a;
                        assert(ids@.take(i + 1)[m] == a);
                    }
                }
            }
        }
        assert(ids@.take(n as int) =~= ids@);
        PosMatcher { ids: out }
    }

    /// Whether the matcher matches `pos_id`.
    pub fn matches_id(&self, pos_id: u16) -> (r: bool)
        ensures
            r == self@.contains(pos_id),
    {
        holds(&self.ids, pos_id)
    }

    /// The number of identifiers that the matcher matches.
    pub fn num_entries(&self) -> (r: usize)
        ensures
            self@.finite(),
            r == self@.len(),
    {
        proof {
            use_type_invariant(self);
            self.ids@.unique_seq_to_set();
        }
        self.ids.len()
    }

    /// The identifiers matched by `self` and not by `other`, kept in `self`'s order when
    /// `keep_shared` is false; those matched by both when it is true.
    fn filter_by(&self, other: &PosMatcher, keep_shared: bool) -> (r: PosMatcher)
        ensures
            keep_shared ==> r@ == self@.intersect(other@),
            !keep_shared ==> r@ == self@.difference(other@),
    {
        proof {
            use_type_invariant(self);
        }
        let mut out: Vec<u16> = Vec::new();
        let n = self.ids.len();
        let ghost s = self.ids@;
        for i in 0..n
            invariant
                n == s.len(),
                s == self.ids@,
                s.no_duplicates(),
                out@.no_duplicates(),
                forall|a: u16|
                    out@.contains(a) <==> (s.take(i as int).contains(a) && (other@.contains(a)
                        == keep_shared)),
        {
            let x = self.ids[i];
            let ghost before = out@;
            assert(s.take(i + 1) =~= s.take(i as int).push(x));
            if other.matches_id(x) == keep_shared {
                assert(!before.contains(x)) by {
                    if before.contains(x) {
                        let m = choose|m: int|
                            0 <= m < i && #[trigger] s.take(i as int)[m] == x;
                        assert(s[m] == s[i as int]);
                    }
                }
                out.push(x);
                assert forall|a: u16|
                    out@.contains(a) <==> (s.take(i + 1).contains(a) && (other@.contains(a)
                        == keep_shared)) by {
                    if out@.contains(a) && a != x {
                        let k = choose|k: int| 0 <= k < out@.len() && #[trigger] out@[k] == a;
                        assert(before[k] == a);
                        assert(before.contains(a));
                        let m = choose|m: int|
                            0 <= m < i && #[trigger] s.take(i as int)[m] == a;
                        assert(s.take(i + 1)[m] == a);
                    }
                    if out@.contains(a) && a == x {
                        assert(s.take(i + 1)[i as int] == a);
                    }
                    if s.take(i + 1).contains(a) && (other@.contains(a) == keep_shared) {
                        let m = choose|m: int|
                            0 <= m < i + 1 && #[trigger] s.take(i + 1)[m] == a;
                        if m < i {
                            assert(s.take(i as int)[m] == a);
                            let k = choose|k: int| 0 <= k < before.len() && #[trigger] before[k] == a;
                            assert(out@[k] == a);
                        } else {
                            assert(out@[out@.len() - 1] == a);
                        }
                    }
                }
            } else {
                assert forall|a: u16|
                    out@.contains(a) <==> (s.take(i + 1).contains(a) && (other@.contains(a)
                        == keep_shared)) by {
                    if out@.contains(a) {
                        let m = choose|m: int|
                            0 <= m < i && #[trigger] s.take(i as int)[m] == a;
                        assert(s.take(i + 1)[m] == a);
                    }
                    if s.take(i + 1).contains(a) && (other@.contains(a) == keep_shared) {
                        let m = choose|m: int|
                            0 <= m < i + 1 && #[trigger] s.take(i + 1)[m] == a;
                        if m < i {
                            assert(s.take(i as int)[m] == a);
                        }
                    }
                }
            }
        }
        assert(s.take(n as int) =~= s);
        let r = PosMatcher { ids: out };
        assert(keep_shared ==> r@ =~= self@.intersect(other@));
        assert(!keep_shared ==> r@ =~= self@.difference(other@));
        r
    }

    /// The identifiers matched by both `self` and `other`.
    pub fn intersection(&self, other: &PosMatcher) -> (r: PosMatcher)
        ensures
            r@ == self@.intersect(other@),
    {
        self.filter_by(other, true)
    }

    /// The identifiers matched by `self` and not by `other`.
    pub fn difference(&self, other: &PosMatcher) -> (r: PosMatcher)
        ensures
            r@ == self@.difference(other@),
    {
        self.filter_by(other, false)
    }

    /// The identifiers matched by `self` or by `other`.
    pub fn union(&self, other: &PosMatcher) -> (r: PosMatcher)
        ensures
            r@ == self@.union(other@),
    {
        proof {
            use_type_invariant(self);
            use_type_invariant(other);
        }
        let extra = other.difference(self);
        proof {
            use_type_invariant(&extra);
        }
        let mut out = copy_ids(&self.ids);
        let m = extra.ids.len();
        let ghost base = self.ids@;
        for j in 0..m
            invariant
                m == extra.ids@.len(),
                extra.ids@.no_duplicates(),
                extra@ == other@.difference(self@),
                base == self.ids@,
                base.no_duplicates(),
                out@ == base + extra.ids@.take(j as int),
                out@.no_duplicates(),
        {
            let x = extra.ids[j];
            assert(!out@.contains(x)) by {
                if out@.contains(x) {
                    let k = choose|k: int| 0 <= k < out@.len() && #[trigger] out@[k] == x;
                    if k < base.len() {
                        assert(base[k] == x);
                        assert(self@.contains(x));
                        assert(extra.ids@.contains(x)) by {
                            assert(extra.ids@[j as int] == x);
                        }
                        assert(extra@.contains(x));
                    } else {
                        assert(extra.ids@[k - base.len()] == x);
                        assert(extra.ids@[j as int] == x);
                    }
                }
            }
            out.push(x);
            assert(out@ =~= base + extra.ids@.take(j + 1));
        }
        assert(extra.ids@.take(m as int) =~= extra.ids@);
        let r = PosMatcher { ids: out };
        assert(r@ =~= self@.union(other@)) by {
            assert forall|a: u16| r@.contains(a) <==> self@.union(other@).contains(a) by {
                if out@.contains(a) {
                    let k = choose|k: int| 0 <= k < out@.len() && #[trigger] out@[k] == a;
                    if k < base.len() {
                        assert(base[k] == a);
                    } else {
                        assert(extra.ids@[k - base.len()] == a);
                        assert(extra@.contains(a));
                    }
                }
                if self@.contains(a) {
                    let k = choose|k: int| 0 <= k < base.len() && #[trigger] base[k] == a;
                    assert(out@[k] == a);
                } else if other@.contains(a) {
                    assert(extra@.contains(a));
                    let k = choose|k: int|
                        0 <= k < extra.ids@.len() && #[trigger] extra.ids@[k] == a;
                    assert(out@[base.len() + k] == a);
                }
            }
        }
        r
    }
}

fn copy_ids(v: &Vec<u16>) -> (r: Vec<u16>)
    ensures
        r@ == v@,
{
    crate::types::copy_vec(v)
}

} // verus!
