//! Writes that a device takes its time for.
use crate::io::IoError;
use crate::vpci::VpciBusDevice;
use vstd::prelude::*;

verus! {

/// A write that waits for parts of it to be done.
#[derive(Debug)]
pub struct PendingDeferredWrite {
    /// The parts that are not done, by their tokens, in order.
    pub inner_tokens: Vec<u64>,
    /// The token of the write.
    pub outer_token: u64,
}

/// How far a part of a write is.
#[derive(Debug, Clone, Copy, PartialEq, Eq, Structural)]
pub enum TokenStatus {
    /// It is not done.
    Pending,
    /// It is done.
    Ready,
    /// It failed.
    Failed(IoError),
}

/// A write that is over.
#[derive(Debug, Clone, Copy, PartialEq, Eq)]
pub struct Completion {
    /// The token of the write.
    pub outer_token: u64,
    /// How it went.
    pub result: Result<(), IoError>,
}

/// How far a write is.
pub enum Progress {
    /// Some parts are not done.
    Waiting(Seq<u64>),
    /// It is over.
    Over(Result<(), IoError>),
}

/// How far a write is, given how far its parts are. The parts are taken in order,
/// up to the first that is not done; if one failed, so did the write.
pub open spec fn progress(tokens: Seq<u64>, statuses: Seq<TokenStatus>, k: int) -> Progress
    decreases tokens.len() - k,
{
    if k >= tokens.len() {
        Progress::Over(Ok(()))
    } else if k >= statuses.len() {
        Progress::Waiting(tokens.skip(k))
    } else {
        match statuses[k] {
            TokenStatus::Pending => Progress::Waiting(tokens.skip(k)),
            TokenStatus::Ready => progress(tokens, statuses, k + 1),
            TokenStatus::Failed(e) => Progress::Over(Err(e)),
        }
    }
}

/// The first writes that still wait, each as its tokens and its own token.
pub open spec fn still_waiting(
    writes: Seq<PendingDeferredWrite>,
    statuses: Seq<Vec<TokenStatus>>,
    n: int,
) -> Seq<(Seq<u64>, u64)>
    decreases n,
{
    if n <= 0 {
        Seq::empty()
    } else {
        let before = still_waiting(writes, statuses, n - 1);
        match progress(writes[n - 1].inner_tokens@, statuses[n - 1]@, 0) {
            Progress::Waiting(tokens) => before.push((tokens, writes[n - 1].outer_token)),
            Progress::Over(_) => before,
        }
    }
}

/// The first writes that are over.
pub open spec fn completed(
    writes: Seq<PendingDeferredWrite>,
    statuses: Seq<Vec<TokenStatus>>,
    n: int,
) -> Seq<Completion>
    decreases n,
{
    if n <= 0 {
        Seq::empty()
    } else {
        let before = completed(writes, statuses, n - 1);
        match progress(writes[n - 1].inner_tokens@, statuses[n - 1]@, 0) {
            Progress::Waiting(_) => before,
            Progress::Over(result) => before.push(
                Completion { outer_token: writes[n - 1].outer_token, result },
            ),
        }
    }
}

/// Writes, each as its tokens and its own token.
pub open spec fn pending_view(writes: Seq<PendingDeferredWrite>) -> Seq<(Seq<u64>, u64)> {
    Seq::new(writes.len(), |i: int| (writes[i].inner_tokens@, writes[i].outer_token))
}

impl PendingDeferredWrite {
    /// Works out how far the write is: the number of parts that are done, or the
    /// result.
    fn advance(&self, statuses: &Vec<TokenStatus>) -> (r: Result<usize, Result<(), IoError>>)
        ensures
            match r {
                Ok(k) => k <= self.inner_tokens.len() && progress(
                    self.inner_tokens@,
                    statuses@,
                    0,
                ) == Progress::Waiting(self.inner_tokens@.skip(k as int)),
                Err(result) => progress(self.inner_tokens@, statuses@, 0) == Progress::Over(
                    result,
                ),
            },
    {
        let mut k: usize = 0;
        while k < self.inner_tokens.len()
            invariant
                k <= self.inner_tokens@.len(),
                progress(self.inner_tokens@, statuses@, 0) == progress(
                    self.inner_tokens@,
                    statuses@,
                    k as int,
                ),
            decreases self.inner_tokens.len() - k,
        {
            if k >= statuses.len() {
                return Ok(k);
            }
            match statuses[k] {
                TokenStatus::Pending => {
                    return Ok(k);
                },
                TokenStatus::Ready => {},
                TokenStatus::Failed(e) => {
                    return Err(Err(e));
                },
            }
            k = k + 1;
        }
        Err(Ok(()))
    }

    /// The write without its first parts.
    fn rest(&self, k: usize) -> (r: Self)
        requires
            k <= self.inner_tokens.len(),
        ensures
            r.inner_tokens@ == self.inner_tokens@.skip(k as int),
            r.outer_token == self.outer_token,
    {
        let mut inner_tokens: Vec<u64> = Vec::new();
        let mut i: usize = k;
        while i < self.inner_tokens.len()
            invariant
                k <= i <= self.inner_tokens@.len(),
                inner_tokens@ == self.inner_tokens@.subrange(k as int, i as int),
            decreases self.inner_tokens.len() - i,
        {
            inner_tokens.push(self.inner_tokens[i]);
            i = i + 1;
        }
        PendingDeferredWrite { inner_tokens, outer_token: self.outer_token }
    }
}

impl VpciBusDevice {
    /// Keeps a write whose parts are not all done.
    pub fn enqueue_deferred_write(&mut self, inner_tokens: Vec<u64>, outer_token: u64)
        ensures
            final(self).config_base == old(self).config_base,
            final(self).current_slot == old(self).current_slot,
            final(self).vtom == old(self).vtom,
            final(self).pending_writes@ == old(self).pending_writes@.push(
                PendingDeferredWrite { inner_tokens, outer_token },
            ),
    {
        self.pending_writes.push(PendingDeferredWrite { inner_tokens, outer_token });
    }

    /// Takes note of how far the parts of the writes are. Returns the writes that
    /// are over.
    pub fn poll_device(&mut self, statuses: &Vec<Vec<TokenStatus>>) -> (r: Vec<Completion>)
        requires
            statuses@.len() == old(self).pending_writes@.len(),
        ensures
            final(self).config_base == old(self).config_base,
            final(self).current_slot == old(self).current_slot,
            final(self).vtom == old(self).vtom,
            pending_view(final(self).pending_writes@) == still_waiting(
                old(self).pending_writes@,
                statuses@,
                old(self).pending_writes@.len() as int,
            ),
            r@ == completed(
                old(self).pending_writes@,
                statuses@,
                old(self).pending_writes@.len() as int,
            ),
    {
        let mut kept: Vec<PendingDeferredWrite> = Vec::new();
        let mut over: Vec<Completion> = Vec::new();
        let mut i: usize = 0;
        assert(pending_view(kept@) =~= Seq::<(Seq<u64>, u64)>::empty());
        while i < self.pending_writes.len()
            invariant
                *self == *old(self),
                statuses@.len() == self.pending_writes@.len(),
                i <= self.pending_writes@.len(),
                pending_view(kept@) == still_waiting(
                    self.pending_writes@,
                    statuses@,
                    i as int,
                ),
                over@ == completed(self.pending_writes@, statuses@, i as int),
            decreases self.pending_writes.len() - i,
        {
            let ghost before = kept@;
            match self.pending_writes[i].advance(&statuses[i]) {
                Ok(k) => {
                    kept.push(self.pending_writes[i].rest(k));
                    proof {
                        assert(pending_view(kept@) =~= pending_view(before).push(
                            (
                                self.pending_writes@[i as int].inner_tokens@.skip(k as int),
                                self.pending_writes@[i as int].outer_token,
                            ),
                        ));
                    }
                },
                Err(result) => {
                    over.push(
                        Completion { outer_token: self.pending_writes[i].outer_token, result },
                    );
                },
            }
            i = i + 1;
        }
        self.pending_writes = kept;
        over
    }
}

/// A write with a part that failed, after parts that are done, is over with that
/// error, whatever the later parts are.
pub proof fn law_first_failure(tokens: Seq<u64>, statuses: Seq<TokenStatus>, k: int, at: int, e: IoError)
    requires
        0 <= k <= at < tokens.len(),
        at < statuses.len(),
        statuses[at] == TokenStatus::Failed(e),
        forall|i: int| k <= i < at ==> #[trigger] statuses[i] == TokenStatus::Ready,
    ensures
        progress(tokens, statuses, k) == Progress::Over(Err(e)),
    decreases at - k,
{
    if k < at {
        assert(statuses[k] == TokenStatus::Ready);
        law_first_failure(tokens, statuses, k + 1, at, e);
    }
}

/// A write is done when all of its parts are.
pub proof fn law_done_when_all_done(tokens: Seq<u64>, statuses: Seq<TokenStatus>, k: int)
    requires
        0 <= k <= tokens.len() <= statuses.len(),
        forall|i: int| k <= i < tokens.len() ==> #[trigger] statuses[i] == TokenStatus::Ready,
    ensures
        progress(tokens, statuses, k) == Progress::Over(Ok(())),
    decreases tokens.len() - k,
{
    if k < tokens.len() {
        assert(statuses[k] == TokenStatus::Ready);
        law_done_when_all_done(tokens, statuses, k + 1);
    }
}

/// Every write either still waits or is over, and not both.
pub proof fn law_waiting_or_over(
    writes: Seq<PendingDeferredWrite>,
    statuses: Seq<Vec<TokenStatus>>,
    n: int,
)
    requires
        0 <= n <= writes.len(),
    ensures
        still_waiting(writes, statuses, n).len() + completed(writes, statuses, n).len() == n,
    decreases n,
{
    if n > 0 {
        law_waiting_or_over(writes, statuses, n - 1);
    }
}

/// A write waits for its first part that is not done, and for those behind it: the
/// parts before it are done, and it is not.
pub proof fn law_waits_for_first(tokens: Seq<u64>, statuses: Seq<TokenStatus>, k: int)
    requires
        0 <= k <= tokens.len(),
    ensures
        progress(tokens, statuses, k) matches Progress::Waiting(rest) ==> exists|at: int|
            {
                &&& k <= at < tokens.len()
                &&& rest == #[trigger] tokens.skip(at)
                &&& at < statuses.len() ==> statuses[at] == TokenStatus::Pending
                &&& forall|i: int|
                    k <= i < at ==> i < statuses.len() && #[trigger] statuses[i]
                        == TokenStatus::Ready
            },
    decreases tokens.len() - k,
{
    if k < tokens.len() {
        if k < statuses.len() && statuses[k] == TokenStatus::Ready {
            law_waits_for_first(tokens, statuses, k + 1);
            if progress(tokens, statuses, k) is Waiting {
                let rest = progress(tokens, statuses, k)->Waiting_0;
                let at = choose|at: int|
                    {
                        &&& k + 1 <= at < tokens.len()
                        &&& rest == #[trigger] tokens.skip(at)
                        &&& at < statuses.len() ==> statuses[at] == TokenStatus::Pending
                        &&& forall|i: int|
                            k + 1 <= i < at ==> i < statuses.len() && #[trigger] statuses[i]
                                == TokenStatus::Ready
                    };
                assert(rest == tokens.skip(at));
            }
        } else {
            let rest = tokens.skip(k);
            assert(rest == tokens.skip(k));
        }
    }
}

}
