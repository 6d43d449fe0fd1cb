//! The bucket of tokens, with any number of workers at it.

use vstd::prelude::*;

use crate::access::{Step, Width};
use crate::shmem::{LocalCell, STATE_RUNNING};
use crate::worker::client::SchedulerClient;
use crate::worker::token::{InnerLock, TokenPhase, TokenWait};
use crate::worker::WorkerAction;

verus! {

/// Workers at a bucket.
pub ghost struct Bucket {
    /// What each worker is at.
    pub waits: Seq<TokenWait>,
    pub memory: Map<LocalCell, u64>,
    /// How many kernels have been launched.
    pub launched: nat,
}

/// A worker's turn: which worker, what its threads share at the time, and what
/// it is told where the reply does not come from the segment.
pub ghost struct Turn {
    pub worker: int,
    pub lock: InnerLock,
    pub word: u64,
}

/// How many tokens workers have out of the bucket for kernels that have not been
/// launched yet.
pub open spec fn tokens_out(waits: Seq<TokenWait>) -> int
    decreases waits.len(),
{
    if waits.len() == 0 {
        0
    } else {
        tokens_out(waits.drop_last()) + waits.last().holds()
    }
}

impl Bucket {
    /// Whether nobody has started to wait for a token.
    pub open spec fn fresh(self) -> bool {
        &&& self.launched == 0
        &&& forall|i: int|
            0 <= i < self.waits.len() ==> (#[trigger] self.waits[i]).phase is ReadState
        &&& self.memory.dom().contains(LocalCell::TokensRemaining)
    }

    /// The bucket after a turn: the worker takes one step, or launches its kernel
    /// and waits for the next token.
    pub open spec fn taken(self, turn: Turn) -> Bucket {
        if 0 <= turn.worker < self.waits.len() {
            let wait = self.waits[turn.worker];
            match wait.asks(turn.lock) {
                Step::Do(action) => {
                    let reply = match action {
                        WorkerAction::Memory(access) => self.memory[access.cell()],
                        _ => turn.word,
                    };
                    Bucket {
                        waits: self.waits.update(turn.worker, wait.next(turn.lock, reply).0),
                        memory: crate::worker::lone_effect(self.memory, action),
                        launched: self.launched,
                    }
                },
                Step::Done(_) => Bucket {
                    waits: self.waits.update(turn.worker, wait.at(TokenPhase::ReadState)),
                    memory: self.memory,
                    launched: self.launched + 1,
                },
                Step::Overflow => self,
            }
        } else {
            self
        }
    }

    /// The bucket after a sequence of turns.
    pub open spec fn after(self, turns: Seq<Turn>) -> Bucket
        decreases turns.len(),
    {
        if turns.len() == 0 {
            self
        } else {
            self.after(turns.drop_last()).taken(turns.last())
        }
    }

    /// Whether a turn takes a token out of an empty bucket: the worker has seen a
    /// token that others have taken since.
    pub open spec fn overdraws(self, turn: Turn) -> bool {
        &&& 0 <= turn.worker < self.waits.len()
        &&& self.waits[turn.worker].phase is TakeToken
        &&& self.memory[LocalCell::TokensRemaining] == 0
    }

    /// Whether none of a sequence of turns takes a token out of an empty bucket.
    pub open spec fn orderly(self, turns: Seq<Turn>) -> bool
        decreases turns.len(),
    {
        turns.len() > 0 ==> {
            &&& self.orderly(turns.drop_last())
            &&& !self.after(turns.drop_last()).overdraws(turns.last())
        }
    }
}

proof fn lemma_out_of_updated(waits: Seq<TokenWait>, worker: int, wait: TokenWait)
    requires
        0 <= worker < waits.len(),
    ensures
        tokens_out(waits.update(worker, wait)) == tokens_out(waits) - waits[worker].holds()
            + wait.holds(),
    decreases waits.len(),
{
    let changed = waits.update(worker, wait);
    if worker == waits.len() - 1 {
        assert(changed.drop_last() =~= waits.drop_last());
    } else {
        lemma_out_of_updated(waits.drop_last(), worker, wait);
        assert(changed.drop_last() =~= waits.drop_last().update(worker, wait));
    }
}

proof fn lemma_none_out(waits: Seq<TokenWait>)
    requires
        forall|i: int| 0 <= i < waits.len() ==> (#[trigger] waits[i]).phase is ReadState,
    ensures
        tokens_out(waits) == 0,
    decreases waits.len(),
{
    if waits.len() > 0 {
        assert(waits.last().phase is ReadState);
        lemma_none_out(waits.drop_last());
    }
}

/// However many workers there are and in whatever order they take their turns,
/// no token is made or lost while a batch runs: what the bucket held at first is
/// what it holds now, what has been launched, and what workers have in hand.
pub proof fn law_tokens_are_conserved(start: Bucket, turns: Seq<Turn>)
    requires
        start.fresh(),
    ensures
        ({
            let end = start.after(turns);
            &&& end.memory[LocalCell::TokensRemaining] == Width::W64.fit(
                start.memory[LocalCell::TokensRemaining] - end.launched - tokens_out(end.waits),
            )
            &&& end.memory.dom().contains(LocalCell::TokensRemaining)
            &&& end.waits.len() == start.waits.len()
        }),
    decreases turns.len(),
{
    let first = start.memory[LocalCell::TokensRemaining] as int;
    if turns.len() == 0 {
        lemma_none_out(start.waits);
        crate::access::lemma_fit_keeps(Width::W64, first);
    } else {
        law_tokens_are_conserved(start, turns.drop_last());
        let seen = start.after(turns.drop_last());
        let turn = turns.last();
        let end = start.after(turns);
        let spent = seen.launched + tokens_out(seen.waits);
        let left = seen.memory[LocalCell::TokensRemaining] as int;
        let span = Width::W64.span();
        if 0 <= turn.worker < seen.waits.len() {
            lemma_out_of_updated(seen.waits, turn.worker, end.waits[turn.worker]);
            vstd::arithmetic::div_mod::lemma_sub_mod_noop(first - spent, 1, span);
            vstd::arithmetic::div_mod::lemma_add_mod_noop(first - spent, 1, span);
            vstd::arithmetic::div_mod::lemma_small_mod(1, span as nat);
            crate::access::lemma_fit_keeps(Width::W64, left);
            assert(Width::W64.fit(left - 1) == Width::W64.fit(first - spent - 1));
            assert(Width::W64.fit(left + 1) == Width::W64.fit(first - spent + 1));
        }
    }
}

proof fn lemma_out_is_natural(waits: Seq<TokenWait>)
    ensures
        tokens_out(waits) >= 0,
    decreases waits.len(),
{
    if waits.len() > 0 {
        lemma_out_is_natural(waits.drop_last());
    }
}

/// However many workers there are and in whatever order they take their turns,
/// no more kernels are launched than there were tokens, as long as nobody reaches
/// into an empty bucket: what is left is exact at every moment.
pub proof fn law_no_more_launches_than_tokens(start: Bucket, turns: Seq<Turn>)
    requires
        start.fresh(),
        start.orderly(turns),
    ensures
        ({
            let end = start.after(turns);
            let first = start.memory[LocalCell::TokensRemaining];
            &&& end.launched <= first
            &&& end.memory[LocalCell::TokensRemaining] == first - end.launched - tokens_out(
                end.waits,
            )
        }),
    decreases turns.len(),
{
    let first = start.memory[LocalCell::TokensRemaining] as int;
    let end = start.after(turns);
    law_tokens_are_conserved(start, turns);
    lemma_out_is_natural(end.waits);
    if turns.len() == 0 {
        lemma_none_out(start.waits);
    } else {
        let few = turns.drop_last();
        law_no_more_launches_than_tokens(start, few);
        law_tokens_are_conserved(start, few);
        let seen = start.after(few);
        let turn = turns.last();
        lemma_out_is_natural(seen.waits);
        if 0 <= turn.worker < seen.waits.len() {
            lemma_out_of_updated(seen.waits, turn.worker, end.waits[turn.worker]);
            assert(end.launched + tokens_out(end.waits) <= first);
        }
        crate::access::lemma_fit_keeps(
            Width::W64,
            first - end.launched - tokens_out(end.waits),
        );
    }
}

/// A call that asks for a token, by a worker whose threads share a state, with
/// what it is told from outside of the segment.
pub ghost struct Call {
    pub client: SchedulerClient,
    pub lock: InnerLock,
    pub answers: crate::worker::token::Answers,
}

impl Call {
    /// Where the call has come to when it has launched its kernel, or has found an
    /// empty bucket and looked again, with the segment to itself.
    pub open spec fn made(self, memory: Map<LocalCell, u64>) -> (
        TokenWait,
        InnerLock,
        Map<LocalCell, u64>,
    ) {
        TokenWait::initial(&self.client).lone_run(self.lock, memory, self.answers, 8)
    }
}

/// The segment after a sequence of calls, none of which overlap.
pub open spec fn after_calls(memory: Map<LocalCell, u64>, calls: Seq<Call>) -> Map<LocalCell, u64>
    decreases calls.len(),
{
    if calls.len() == 0 {
        memory
    } else {
        calls.last().made(after_calls(memory, calls.drop_last())).2
    }
}

/// How many of a sequence of calls, none of which overlap, get a token.
pub open spec fn calls_served(memory: Map<LocalCell, u64>, calls: Seq<Call>) -> nat
    decreases calls.len(),
{
    if calls.len() == 0 {
        0
    } else {
        let end = calls.last().made(after_calls(memory, calls.drop_last()));
        calls_served(memory, calls.drop_last()) + if end.0.phase is Launch {
            1nat
        } else {
            0
        }
    }
}

/// Whether a batch is running in a segment.
pub open spec fn is_running(memory: Map<LocalCell, u64>) -> bool {
    &&& memory.dom().contains(LocalCell::State)
    &&& memory.dom().contains(LocalCell::BatchId)
    &&& memory.dom().contains(LocalCell::TokensRemaining)
    &&& memory[LocalCell::State] == STATE_RUNNING
}

proof fn lemma_empty_bucket_launches_nothing(call: Call, memory: Map<LocalCell, u64>)
    requires
        call.client.connected,
        is_running(memory),
        memory[LocalCell::TokensRemaining] == 0,
    ensures
        !(call.made(memory).0.phase is Launch),
        call.made(memory).2 == memory,
{
    let wait = TokenWait::initial(&call.client);
    let seen = call.lock.seen_batch(memory[LocalCell::BatchId]);
    assert(memory.insert(LocalCell::State, memory[LocalCell::State]) =~= memory);
    assert(memory.insert(LocalCell::BatchId, memory[LocalCell::BatchId]) =~= memory);
    assert(memory.insert(LocalCell::TokensRemaining, 0) =~= memory);
    reveal_with_fuel(TokenWait::lone_run, 9);
    assert(wait.lone_run(call.lock, memory, call.answers, 4) == (wait, seen, memory));
}

/// Of a number of calls that do not overlap, exactly as many get a token as there
/// are tokens, or all of them where there are enough; the rest of the tokens stay
/// in the bucket.
pub proof fn law_calls_share_the_tokens(memory: Map<LocalCell, u64>, calls: Seq<Call>)
    requires
        is_running(memory),
        forall|i: int|
            0 <= i < calls.len() ==> (#[trigger] calls[i]).client.connected
                && calls[i].client.wf(),
    ensures
        ({
            let tokens = memory[LocalCell::TokensRemaining] as nat;
            let served = calls_served(memory, calls);
            let after = after_calls(memory, calls);
            &&& served == if calls.len() < tokens {
                calls.len()
            } else {
                tokens
            }
            &&& is_running(after)
            &&& after[LocalCell::TokensRemaining] == tokens - served
        }),
    decreases calls.len(),
{
    if calls.len() > 0 {
        let few = calls.drop_last();
        let call = calls[calls.len() - 1];
        assert forall|i: int| 0 <= i < few.len() implies (#[trigger] few[i]).client.connected
            && few[i].client.wf() by {
            assert(few[i] == calls[i]);
        }
        law_calls_share_the_tokens(memory, few);
        let seen = after_calls(memory, few);
        assert(call == calls.last());
        if seen[LocalCell::TokensRemaining] == 0 {
            lemma_empty_bucket_launches_nothing(call, seen);
        } else {
            crate::worker::token::law_token_is_granted(
                call.client,
                call.lock,
                seen,
                call.answers,
            );
        }
    }
}

} // verus!
