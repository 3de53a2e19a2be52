//! Rotation over the configured GitHub tokens. Without a token, calls go out
//! anonymously; when a token hits the rate limit, the next one takes over.

use vstd::prelude::*;

verus! {

/// The non-empty strings of `s`, in order.
pub open spec fn non_empty_tokens(s: Seq<String>) -> Seq<String>
    decreases s.len(),
{
    if s.len() == 0 {
        s
    } else {
        let rest = non_empty_tokens(s.drop_last());
        if s.last()@.len() > 0 {
            rest.push(s.last())
        } else {
            rest
        }
    }
}

/// The position after `k` rotations from position `p` among `n` tokens.
pub open spec fn after_rotations(p: nat, n: nat, k: nat) -> nat
    decreases k,
{
    if k == 0 {
        p
    } else if n <= 1 {
        p
    } else {
        (after_rotations(p, n, (k - 1) as nat) + 1) % n
    }
}

/// Rotation visits the tokens in order and wraps around: `k` rotations from position
/// `p` land on `(p + k) % n`, so `n` rotations come back to the starting token.
pub proof fn lemma_rotations_cycle(p: nat, n: nat, k: nat)
    requires
        p < n,
    ensures
        after_rotations(p, n, k) == (p + k) % n,
    decreases k,
{
    if k == 0 {
        vstd::arithmetic::div_mod::lemma_small_mod(p, n);
    } else if n <= 1 {
        assert(p == 0 && n == 1);
        vstd::arithmetic::div_mod::lemma_small_mod(0, 1);
        assert((p + k) % n == 0) by (nonlinear_arith)
            requires
                n == 1,
        ;
    } else {
        lemma_rotations_cycle(p, n, (k - 1) as nat);
        vstd::arithmetic::div_mod::lemma_add_mod_noop((p + k - 1) as int, 1, n as int);
        vstd::arithmetic::div_mod::lemma_small_mod(1, n);
    }
}

/// One more rotation after `k` of them is `k + 1` rotations, so `k` calls of
/// [`TokenRotator::rotate`] on a new rotator leave it at `after_rotations(0, n, k)`,
/// that is at token `k % n` (see [`lemma_rotations_cycle`]).
pub proof fn lemma_rotate_again(p: nat, n: nat, k: nat)
    ensures
        after_rotations(after_rotations(p, n, k), n, 1) == after_rotations(p, n, k + 1),
    decreases k,
{
    reveal_with_fuel(after_rotations, 2);
    if k > 0 {
        lemma_rotate_again(p, n, (k - 1) as nat);
    }
}

/// The configured tokens and the position of the one in use.
pub struct TokenRotator {
    tokens: Vec<String>,
    idx: usize,
}

impl TokenRotator {
    #[verifier::type_invariant]
    spec fn well_formed(self) -> bool {
        &&& self.tokens@.len() == 0 ==> self.idx == 0
        &&& self.tokens@.len() > 0 ==> self.idx < self.tokens@.len()
        &&& forall|i: int| 0 <= i < self.tokens@.len() ==> (#[trigger] self.tokens@[i])@.len() > 0
    }

    /// The tokens in rotation order.
    pub closed spec fn tokens(&self) -> Seq<String> {
        self.tokens@
    }

    /// The position of the token in use.
    pub closed spec fn position(&self) -> nat {
        self.idx as nat
    }

    /// A rotator over the non-empty `tokens`, starting at the first.
    pub fn new(tokens: Vec<String>) -> (r: Self)
        ensures
            r.tokens() == non_empty_tokens(tokens@),
            r.position() == 0,
    {
        let mut kept: Vec<String> = Vec::new();
        let mut i: usize = 0;
        while i < tokens.len()
            invariant
                i <= tokens@.len(),
                kept@ == non_empty_tokens(tokens@.take(i as int)),
                forall|j: int| 0 <= j < kept@.len() ==> (#[trigger] kept@[j])@.len() > 0,
            decreases tokens@.len() - i,
        {
            let t = tokens[i].clone();
            assert(tokens@.take(i + 1).drop_last() =~= tokens@.take(i as int));
            if !t.as_str().is_empty() {
                kept.push(t);
            }
            i = i + 1;
        }
        assert(tokens@.take(tokens@.len() as int) =~= tokens@);
        TokenRotator { tokens: kept, idx: 0 }
    }

    /// Whether no token is configured (calls then go out anonymously).
    pub fn is_empty(&self) -> (b: bool)
        ensures
            b == (self.tokens().len() == 0),
    {
        self.tokens.len() == 0
    }

    /// The token in use; `None` when no token is configured.
    pub fn current(&self) -> (r: Option<String>)
        ensures
            self.tokens().len() == 0 ==> r is None,
            self.tokens().len() > 0 ==> self.position() < self.tokens().len() && r == Some(
                self.tokens()[self.position() as int],
            ),
            r matches Some(t) ==> t@.len() > 0,
    {
        proof {
            use_type_invariant(self);
        }
        if self.tokens.len() == 0 {
            return None;
        }
        Some(self.tokens[self.idx].clone())
    }

    /// Moves on to the next token, wrapping around; a no-op with fewer than two tokens.
    pub fn rotate(&mut self)
        ensures
            final(self).tokens() == old(self).tokens(),
            final(self).position() == after_rotations(
                old(self).position(),
                old(self).tokens().len(),
                1,
            ),
    {
        proof {
            use_type_invariant(&*self);
            reveal_with_fuel(after_rotations, 2);
        }
        if self.tokens.len() <= 1 {
            return;
        }
        self.idx = (self.idx + 1) % self.tokens.len();
    }
}

} // verus!
