//! The presence registry: the set of display names currently claimed by
//! live sessions. It arbitrates name uniqueness — a claim succeeds exactly
//! when no live session already holds the name — and a release frees the
//! name for later claims.

use vstd::prelude::*;

verus! {

/// A claim of `name` against the claimed-name set `claimed` may succeed
/// exactly when the name is not currently claimed.
pub open spec fn claim_allowed(claimed: Set<Seq<char>>, name: Seq<char>) -> bool {
    !claimed.contains(name)
}

/// The claimed-name set after one claim attempt of `name`: the name is
/// recorded when the claim is allowed, and nothing changes when it is not.
pub open spec fn after_claim(claimed: Set<Seq<char>>, name: Seq<char>) -> Set<Seq<char>> {
    if claim_allowed(claimed, name) {
        claimed.insert(name)
    } else {
        claimed
    }
}

/// The outcomes of `n` claim attempts of the same `name`, linearized by the
/// registry's mutual exclusion and run with no release in between: one
/// boolean per attempt, in attempt order.
pub open spec fn claim_results(claimed: Set<Seq<char>>, name: Seq<char>, n: nat) -> Seq<bool>
    decreases n,
{
    if n == 0 {
        Seq::empty()
    } else {
        seq![claim_allowed(claimed, name)] + claim_results(
            after_claim(claimed, name),
            name,
            (n - 1) as nat,
        )
    }
}

/// The set of display names currently claimed by live sessions.
///
/// Viewed as the set of claimed names. The well-formedness invariant says
/// that no name is recorded twice, so at most one live session holds any
/// given name at a time.
pub struct Registry {
    names: Vec<String>,
}

impl View for Registry {
    type V = Set<Seq<char>>;

    closed spec fn view(&self) -> Set<Seq<char>> {
        Set::new(
            |n: Seq<char>|
                exists|i: int| 0 <= i < self.names@.len() && self.names@[i]@ == n,
        )
    }
}

impl Registry {
    /// No name occurs twice in the backing store.
    pub closed spec fn wf(&self) -> bool {
        forall|i: int, j: int|
            #![trigger self.names@[i]@, self.names@[j]@]
            0 <= i < j < self.names@.len() ==> self.names@[i]@ != self.names@[j]@
    }

    proof fn lemma_distinct(&self, i: int, j: int)
        requires
            self.wf(),
            0 <= i < self.names@.len(),
            0 <= j < self.names@.len(),
            i != j,
        ensures
            self.names@[i]@ != self.names@[j]@,
    {
        if i < j {
            assert(self.names@[i]@ != self.names@[j]@);
        } else {
            assert(self.names@[j]@ != self.names@[i]@);
        }
    }

    /// A fresh registry claims no name at all.
    pub fn new() -> (r: Registry)
        ensures
            r.wf(),
            r@ == Set::<Seq<char>>::empty(),
    {
        let r = Registry { names: Vec::new() };
        proof {
            assert(r@ =~= Set::<Seq<char>>::empty());
        }
        r
    }

    /// Whether `name` is currently claimed.
    pub fn contains_name(&self, name: &str) -> (r: bool)
        ensures
            r == self@.contains(name@),
    {
        let wanted: String = name.to_owned();
        let mut i: usize = 0;
        while i < self.names.len()
            invariant
                i <= self.names@.len(),
                wanted@ == name@,
                forall|j: int| 0 <= j < i ==> self.names@[j]@ != name@,
            decreases self.names@.len() - i,
        {
            if self.names[i] == wanted {
                proof {
                    assert(self.names@[i as int]@ == name@);
                    assert(self@.contains(name@));
                }
                return true;
            }
            i += 1;
        }
        proof {
            assert(!self@.contains(name@));
        }
        false
    }

    /// Claim `name`: records it and returns true exactly when it was not
    /// already claimed; when the claim loses, nothing changes, and the
    /// caller may retry later.
    pub fn try_claim(&mut self, name: &str) -> (r: bool)
        requires
            old(self).wf(),
        ensures
            final(self).wf(),
            r == claim_allowed(old(self)@, name@),
            final(self)@ == after_claim(old(self)@, name@),
            r ==> final(self)@ == old(self)@.insert(name@),
            !r ==> final(self)@ == old(self)@,
    {
        if self.contains_name(name) {
            false
        } else {
            let ghost pre = self.names@;
            self.names.push(name.to_owned());
            proof {
                assert(self.names@.len() == pre.len() + 1);
                assert(self.names@[pre.len() as int]@ == name@);
                assert forall|a: int| 0 <= a < pre.len() implies self.names@[a] == pre[a] by {}
                assert forall|n: Seq<char>| self@.contains(n) implies old(
                    self,
                )@.insert(name@).contains(n) by {
                    let i = choose|i: int|
                        0 <= i < self.names@.len() && self.names@[i]@ == n;
                    if i < pre.len() {
                        assert(old(self).names@[i]@ == n);
                        assert(old(self)@.contains(n));
                    } else {
                        assert(n == name@);
                    }
                }
                assert forall|n: Seq<char>| old(self)@.insert(name@).contains(n) implies self@.contains(
                    n,
                ) by {
                    if n == name@ {
                        assert(self.names@[pre.len() as int]@ == n);
                    } else {
                        let i = choose|i: int|
                            0 <= i < pre.len() && old(self).names@[i]@ == n;
                        assert(self.names@[i]@ == n);
                    }
                }
                assert(self@ =~= old(self)@.insert(name@));
                assert forall|i: int, j: int|
                    0 <= i < j < self.names@.len() implies self.names@[i]@ != self.names@[j]@ by {
                    if j == pre.len() {
                        assert(!old(self)@.contains(name@));
                        assert(old(self).names@[i]@ != name@);
                    } else {
                        old(self).lemma_distinct(i, j);
                    }
                }
            }
            true
        }
    }

    /// Release `name` unconditionally: afterwards the name is not claimed.
    /// Releasing a name that was never claimed is a no-op.
    pub fn release(&mut self, name: &str)
        requires
            old(self).wf(),
        ensures
            final(self).wf(),
            final(self)@ == old(self)@.remove(name@),
            !final(self)@.contains(name@),
    {
        let wanted: String = name.to_owned();
        let mut i: usize = 0;
        while i < self.names.len()
            invariant
                i <= self.names@.len(),
                wanted@ == name@,
                *self == *old(self),
                old(self).wf(),
                forall|j: int| 0 <= j < i ==> self.names@[j]@ != name@,
            decreases self.names@.len() - i,
        {
            if self.names[i] == wanted {
                let ghost pre = self.names@;
                let ghost at = i as int;
                self.names.remove(i);
                proof {
                    pre.remove_ensures(at);
                    assert(self.names@ == pre.remove(at));
                    assert(self.names@.len() == pre.len() - 1);
                    assert(pre[at]@ == name@);
                    assert forall|n: Seq<char>| self@.contains(n) implies old(
                        self,
                    )@.remove(name@).contains(n) by {
                        let j = choose|j: int|
                            0 <= j < self.names@.len() && self.names@[j]@ == n;
                        let k: int = if j < at {
                            j
                        } else {
                            j + 1
                        };
                        assert(self.names@[j] == pre[k]);
                        assert(0 <= k < pre.len() && k != at);
                        old(self).lemma_distinct(k, at);
                        assert(old(self).names@[k]@ == n);
                        assert(old(self)@.contains(n));
                    }
                    assert forall|n: Seq<char>| old(self)@.remove(name@).contains(n) implies self@.contains(
                        n,
                    ) by {
                        let k = choose|k: int| 0 <= k < pre.len() && pre[k]@ == n;
                        assert(k != at);
                        if k < at {
                            assert(self.names@[k] == pre[k]);
                        } else {
                            assert(self.names@[k - 1] == pre[k]);
                        }
                    }
                    assert(self@ =~= old(self)@.remove(name@));
                    assert forall|a: int, b: int|
                        0 <= a < b < self.names@.len() implies self.names@[a]@ != self.names@[b]@ by {
                        let a0: int = if a < at {
                            a
                        } else {
                            a + 1
                        };
                        let b0: int = if b < at {
                            b
                        } else {
                            b + 1
                        };
                        assert(self.names@[a] == pre[a0]);
                        assert(self.names@[b] == pre[b0]);
                        old(self).lemma_distinct(a0, b0);
                    }
                    assert(!self@.contains(name@));
                }
                return;
            }
            i += 1;
        }
        proof {
            assert(!old(self)@.contains(name@));
            assert(old(self)@.remove(name@) =~= old(self)@);
        }
    }
}

/// Uniqueness of claims, one step: once a claim of `name` has succeeded
/// against the claimed-name set `claimed`, no further claim of the same
/// name can succeed until the name is released.
pub proof fn lemma_claim_uniqueness(claimed: Set<Seq<char>>, name: Seq<char>)
    ensures
        claim_allowed(claimed, name) ==> !claim_allowed(claimed.insert(name), name),
{
}

proof fn lemma_claim_results_len(claimed: Set<Seq<char>>, name: Seq<char>, n: nat)
    ensures
        claim_results(claimed, name, n).len() == n,
    decreases n,
{
    if n > 0 {
        lemma_claim_results_len(after_claim(claimed, name), name, (n - 1) as nat);
    }
}

/// A name that is already claimed never gets claimed again, however many
/// attempts follow.
pub proof fn lemma_taken_name_never_succeeds(
    claimed: Set<Seq<char>>,
    name: Seq<char>,
    n: nat,
    i: int,
)
    requires
        claimed.contains(name),
        0 <= i < n,
    ensures
        !claim_results(claimed, name, n)[i],
    decreases n,
{
    assert(after_claim(claimed, name) == claimed);
    lemma_claim_results_len(claimed, name, (n - 1) as nat);
    let rest = claim_results(claimed, name, (n - 1) as nat);
    assert(claim_results(claimed, name, n) == seq![claim_allowed(claimed, name)] + rest);
    if i == 0 {
        assert(claim_results(claimed, name, n)[0] == claim_allowed(claimed, name));
    } else {
        lemma_taken_name_never_succeeds(claimed, name, (n - 1) as nat, i - 1);
        assert(claim_results(claimed, name, n)[i] == rest[i - 1]);
    }
}

/// Uniqueness of claims: in every sequence of claim attempts with the same
/// candidate name — concurrent attempts are linearized by the registry's
/// mutual exclusion — and with no release in between, at most one attempt
/// succeeds: whenever attempt `a` succeeded, every later attempt `b` fails.
pub proof fn lemma_at_most_one_claim_succeeds(
    claimed: Set<Seq<char>>,
    name: Seq<char>,
    n: nat,
    a: int,
    b: int,
)
    requires
        0 <= a < b < n,
        claim_results(claimed, name, n)[a],
    ensures
        !claim_results(claimed, name, n)[b],
    decreases n,
{
    lemma_claim_results_len(after_claim(claimed, name), name, (n - 1) as nat);
    let rest = claim_results(after_claim(claimed, name), name, (n - 1) as nat);
    assert(claim_results(claimed, name, n) == seq![claim_allowed(claimed, name)] + rest);
    assert(claim_results(claimed, name, n)[b] == rest[b - 1]);
    if a == 0 {
        assert(claim_results(claimed, name, n)[0] == claim_allowed(claimed, name));
        assert(after_claim(claimed, name).contains(name));
        lemma_taken_name_never_succeeds(after_claim(claimed, name), name, (n - 1) as nat, b - 1);
    } else {
        assert(claim_results(claimed, name, n)[a] == rest[a - 1]);
        lemma_at_most_one_claim_succeeds(
            after_claim(claimed, name),
            name,
            (n - 1) as nat,
            a - 1,
            b - 1,
        );
    }
}

/// A released name is claimable again: whatever was claimed before, after
/// `name` is removed a claim of `name` is allowed, so a loser may retry
/// once the holder releases it, and a torn-down session's name can be taken
/// by a new connection.
pub proof fn lemma_released_name_claimable(claimed: Set<Seq<char>>, name: Seq<char>)
    ensures
        claim_allowed(claimed.remove(name), name),
{
}

} // verus!
