//! What a message does to the outside: the calls that it makes on the way to its outcome, and
//! what they move.
use vstd::prelude::*;
use crate::account::AccountId;
use crate::host::{conclude, progress, Call, Progress, Reply, Step, Write};

verus! {

/// The calls that a message makes when the outside answers with `replies`, one after another.
pub open spec fn calls_of<T, E>(
    step: spec_fn(Seq<Reply>) -> Step<T, E>,
    replies: Seq<Reply>,
) -> Seq<Call>
    decreases replies.len(),
{
    if replies.len() == 0 {
        seq![]
    } else {
        calls_of(step, replies.drop_last()) + (match step(replies.drop_last()) {
            Step::Call(call) => seq![call],
            Step::Done(_) => seq![],
        })
    }
}

/// The sum of a quantity over calls.
pub open spec fn total(calls: Seq<Call>, of: spec_fn(Call) -> int) -> int
    decreases calls.len(),
{
    if calls.len() == 0 {
        0
    } else {
        total(calls.drop_last(), of) + of(calls.last())
    }
}

/// Tokens that a call sends from the contract to an account.
pub open spec fn tokens_to(token: AccountId, who: AccountId) -> spec_fn(Call) -> int {
    |call: Call|
        match call {
            Call::TokenTransfer { token: t, to, amount } => if t == token && to == who {
                amount as int
            } else {
                0
            },
            _ => 0,
        }
}

/// Tokens that a call pulls from an account to another.
pub open spec fn tokens_pulled(token: AccountId, who: AccountId, into: AccountId) -> spec_fn(
    Call,
) -> int {
    |call: Call|
        match call {
            Call::TokenTransferFrom { token: t, from, to, amount } => if t == token && from == who
                && to == into {
                amount as int
            } else {
                0
            },
            _ => 0,
        }
}

/// Native tokens that a call sends from the contract to an account.
pub open spec fn native_to(who: AccountId) -> spec_fn(Call) -> int {
    |call: Call|
        match call {
            Call::NativeTransfer { to, amount } => if to == who {
                amount as int
            } else {
                0
            },
            _ => 0,
        }
}

/// Alpha on a subnet that a call hands from the contract to an account.
pub open spec fn alpha_to(hotkey: AccountId, netuid: u16, who: AccountId) -> spec_fn(Call) -> int {
    |call: Call|
        match call {
            Call::TransferStake {
                destination,
                hotkey: h,
                origin_netuid,
                destination_netuid,
                amount,
            } => if destination == who && h == hotkey && origin_netuid == netuid
                && destination_netuid == netuid {
                amount as int
            } else {
                0
            },
            _ => 0,
        }
}

/// Alpha on a subnet that a call pulls from the caller to an account.
pub open spec fn alpha_pulled(hotkey: AccountId, netuid: u16, into: AccountId) -> spec_fn(
    Call,
) -> int {
    |call: Call|
        match call {
            Call::CallerTransferStake {
                destination,
                hotkey: h,
                origin_netuid,
                destination_netuid,
                amount,
            } => if destination == into && h == hotkey && origin_netuid == netuid
                && destination_netuid == netuid {
                amount as int
            } else {
                0
            },
            _ => 0,
        }
}

/// Alpha on a subnet that a call unstakes.
pub open spec fn alpha_unstaked(hotkey: AccountId, netuid: u16) -> spec_fn(Call) -> int {
    |call: Call|
        match call {
            Call::RemoveStake { hotkey: h, netuid: n, amount } => if h == hotkey && n == netuid {
                amount as int
            } else {
                0
            },
            _ => 0,
        }
}

/// Tokens that a call mints to an account.
pub open spec fn minted_to(token: AccountId, who: AccountId) -> spec_fn(Call) -> int {
    |call: Call|
        match call {
            Call::TokenMint { token: t, to, amount } => if t == token && to == who {
                amount as int
            } else {
                0
            },
            _ => 0,
        }
}

/// Tokens that a call burns from an account.
pub open spec fn burned_from(token: AccountId, who: AccountId) -> spec_fn(Call) -> int {
    |call: Call|
        match call {
            Call::TokenBurn { token: t, from, amount } => if t == token && from == who {
                amount as int
            } else {
                0
            },
            _ => 0,
        }
}

/// Everything that a call moves: tokens, native tokens and alpha, whoever gives or gets it.
pub open spec fn moved() -> spec_fn(Call) -> int {
    |call: Call|
        match call {
            Call::TokenTransfer { amount, .. } => amount as int,
            Call::TokenTransferFrom { amount, .. } => amount as int,
            Call::NativeTransfer { amount, .. } => amount as int,
            Call::TransferStake { amount, .. } => amount as int,
            Call::CallerTransferStake { amount, .. } => amount as int,
            Call::RemoveStake { amount, .. } => amount as int,
            Call::TokenMint { amount, .. } => amount as int,
            Call::TokenBurn { amount, .. } => amount as int,
            Call::TreasuryRelease { amount, .. } => amount as int,
            _ => 0,
        }
}

/// The calls of a list of writes.
pub open spec fn calls_in<E>(writes: Seq<Write<E>>) -> Seq<Call> {
    Seq::new(writes.len(), |i: int| writes[i].call)
}

/// Sums over calls add up.
pub proof fn lemma_total_adds(a: Seq<Call>, b: Seq<Call>, of: spec_fn(Call) -> int)
    ensures
        total(a + b, of) == total(a, of) + total(b, of),
    decreases b.len(),
{
    if b.len() == 0 {
        assert(a + b =~= a);
    } else {
        lemma_total_adds(a, b.drop_last(), of);
        assert((a + b).drop_last() =~= a + b.drop_last());
        assert((a + b).last() == b.last());
    }
}

/// The sum over one call.
pub proof fn lemma_total_of_one(call: Call, of: spec_fn(Call) -> int)
    ensures
        total(seq![call], of) == of(call),
{
    assert(seq![call].drop_last() =~= seq![]);
    reveal_with_fuel(total, 2);
}

/// A call that is made only under a condition.
pub open spec fn only_if(made: bool, call: Call) -> Seq<Call> {
    if made {
        seq![call]
    } else {
        seq![]
    }
}

/// The sum over a call that is made only under a condition.
pub proof fn lemma_total_only_if(made: bool, call: Call, of: spec_fn(Call) -> int)
    ensures
        total(only_if(made, call), of) == if made {
            of(call)
        } else {
            0
        },
{
    lemma_total_of_one(call, of);
}

/// The sum over a call and four that may be absent.
pub proof fn lemma_total_of_five(
    calls: Seq<Call>,
    first: Call,
    made: (bool, bool, bool, bool),
    rest: (Call, Call, Call, Call),
    of: spec_fn(Call) -> int,
)
    requires
        calls == seq![first] + only_if(made.0, rest.0) + only_if(made.1, rest.1) + only_if(
            made.2,
            rest.2,
        ) + only_if(made.3, rest.3),
    ensures
        total(calls, of) == of(first) + (if made.0 {
            of(rest.0)
        } else {
            0
        }) + (if made.1 {
            of(rest.1)
        } else {
            0
        }) + (if made.2 {
            of(rest.2)
        } else {
            0
        }) + (if made.3 {
            of(rest.3)
        } else {
            0
        }),
{
    let a = seq![first];
    let b = a + only_if(made.0, rest.0);
    let c = b + only_if(made.1, rest.1);
    let d = c + only_if(made.2, rest.2);
    lemma_total_of_one(first, of);
    lemma_total_adds(a, only_if(made.0, rest.0), of);
    lemma_total_adds(b, only_if(made.1, rest.1), of);
    lemma_total_adds(c, only_if(made.2, rest.2), of);
    lemma_total_adds(d, only_if(made.3, rest.3), of);
    lemma_total_only_if(made.0, rest.0, of);
    lemma_total_only_if(made.1, rest.1, of);
    lemma_total_only_if(made.2, rest.2, of);
    lemma_total_only_if(made.3, rest.3, of);
}

proof fn lemma_progress_of_prefix<E>(
    writes: Seq<Write<E>>,
    replies: Seq<Reply>,
    from: nat,
    m: nat,
    i: nat,
)
    requires
        from <= m <= replies.len(),
        i <= writes.len(),
        from + i <= m,
        progress(writes, replies, from, i) is Complete,
    ensures
        m - from < writes.len() ==> progress(writes, replies.take(m as int), from, i)
            == Progress::<E>::Pending(writes[m - from].call),
        m - from >= writes.len() ==> progress(writes, replies.take(m as int), from, i) is Complete,
    decreases writes.len() - i,
{
    if i < writes.len() && from + i < m {
        assert(replies.take(m as int)[(from + i) as int] == replies[(from + i) as int]);
        lemma_progress_of_prefix(writes, replies, from, m, i + 1);
    }
}

proof fn lemma_calls_up_to<T, E>(
    step: spec_fn(Seq<Reply>) -> Step<T, E>,
    writes: Seq<Write<E>>,
    replies: Seq<Reply>,
    from: nat,
    outcome: Result<T, E>,
    m: nat,
)
    requires
        from <= m <= replies.len(),
        forall|k: int|
            from <= k <= replies.len() ==> step(#[trigger] replies.take(k)) == conclude(
                writes,
                replies.take(k),
                from,
                outcome,
            ),
        progress(writes, replies, from, 0) is Complete,
    ensures
        calls_of(step, replies.take(m as int)) == calls_of(step, replies.take(from as int))
            + calls_in(writes).take(
            if m - from < writes.len() {
                m - from
            } else {
                writes.len() as int
            },
        ),
    decreases m,
{
    let prefix = calls_of(step, replies.take(from as int));
    if m == from {
        assert(calls_in(writes).take(0) =~= seq![]);
        assert(prefix + seq![] =~= prefix);
    } else {
        let n = (m - 1) as nat;
        lemma_calls_up_to(step, writes, replies, from, outcome, n);
        assert(replies.take(m as int).drop_last() =~= replies.take(n as int));
        lemma_progress_of_prefix(writes, replies, from, n, 0);
        let before = calls_in(writes).take(
            if n - from < writes.len() {
                n - from
            } else {
                writes.len() as int
            },
        );
        let after = calls_in(writes).take(
            if m - from < writes.len() {
                m - from
            } else {
                writes.len() as int
            },
        );
        if n - from < writes.len() {
            assert(after =~= before + seq![writes[n - from].call]);
            assert(prefix + after =~= prefix + before + seq![writes[n - from].call]);
        } else {
            assert(after =~= before);
            assert(prefix + after =~= prefix + before + seq![]);
        }
    }
}

/// A message that ends in a list of writes, all of which succeeded, makes exactly their calls
/// after those that led up to it.
pub proof fn lemma_calls_of_writes<T, E>(
    step: spec_fn(Seq<Reply>) -> Step<T, E>,
    writes: Seq<Write<E>>,
    replies: Seq<Reply>,
    from: nat,
    outcome: Result<T, E>,
)
    requires
        from <= replies.len(),
        forall|k: int|
            from <= k <= replies.len() ==> step(#[trigger] replies.take(k)) == conclude(
                writes,
                replies.take(k),
                from,
                outcome,
            ),
        conclude(writes, replies, from, outcome) matches Step::Done(Ok(_)),
        outcome is Ok,
    ensures
        calls_of(step, replies) == calls_of(step, replies.take(from as int)) + calls_in(writes),
{
    lemma_calls_up_to(step, writes, replies, from, outcome, replies.len());
    assert(replies.take(replies.len() as int) =~= replies);
    crate::host::law_progress_complete(writes, replies, from, 0);
    assert(from + writes.len() <= replies.len()) by {
        if writes.len() > 0 {
            let j = (writes.len() - 1) as nat;
            assert(!(replies[(from + j) as int] is Failed));
        }
    }
    assert(calls_in(writes).take(writes.len() as int) =~= calls_in(writes));
}

/// The error of a pending write is what the message ends with when that write fails.
pub proof fn lemma_failed_write<T, E>(
    writes: Seq<Write<E>>,
    replies: Seq<Reply>,
    from: nat,
    outcome: Result<T, E>,
    call: Call,
) -> (i: int)
    requires
        from <= replies.len(),
        conclude(writes, replies, from, outcome) == Step::<T, E>::Call(call),
    ensures
        0 <= i < writes.len(),
        writes[i].call == call,
        conclude(writes, replies.push(Reply::Failed), from, outcome) == Step::<T, E>::Done(
            Err(writes[i].on_failure),
        ),
{
    lemma_failed_from(writes, replies, from, 0)
}

proof fn lemma_failed_from<E>(
    writes: Seq<Write<E>>,
    replies: Seq<Reply>,
    from: nat,
    k: nat,
) -> (i: int)
    requires
        from + k <= replies.len(),
        progress(writes, replies, from, k) is Pending,
    ensures
        0 <= i < writes.len(),
        writes[i].call == progress(writes, replies, from, k)->Pending_0,
        progress(writes, replies.push(Reply::Failed), from, k) == Progress::Failed(
            writes[i].on_failure,
        ),
    decreases writes.len() - k,
{
    let longer = replies.push(Reply::Failed);
    if from + k == replies.len() {
        assert(longer[(from + k) as int] is Failed);
        k as int
    } else {
        assert(longer[(from + k) as int] == replies[(from + k) as int]);
        lemma_failed_from(writes, replies, from, k + 1)
    }
}

/// The calls of a message that starts with a call.
pub proof fn lemma_one_lead<T, E>(
    step: spec_fn(Seq<Reply>) -> Step<T, E>,
    replies: Seq<Reply>,
    first: Call,
)
    requires
        replies.len() >= 1,
        step(Seq::<Reply>::empty()) == Step::<T, E>::Call(first),
    ensures
        calls_of(step, replies.take(0)) == Seq::<Call>::empty(),
        calls_of(step, replies.take(1)) == seq![first],
{
    assert(replies.take(0) =~= Seq::<Reply>::empty());
    assert(replies.take(1).drop_last() =~= Seq::<Reply>::empty());
    assert(calls_of(step, Seq::<Reply>::empty()) =~= seq![]);
    assert(calls_of(step, replies.take(1)) =~= seq![first]);
}

/// One more call of a message.
pub proof fn lemma_next_call<T, E>(
    step: spec_fn(Seq<Reply>) -> Step<T, E>,
    replies: Seq<Reply>,
    n: int,
    call: Call,
)
    requires
        0 <= n < replies.len(),
        step(replies.take(n)) == Step::<T, E>::Call(call),
    ensures
        calls_of(step, replies.take(n + 1)) == calls_of(step, replies.take(n)).push(call),
{
    assert(replies.take(n + 1).drop_last() =~= replies.take(n));
    assert(calls_of(step, replies.take(n + 1)) =~= calls_of(step, replies.take(n)).push(call));
}

/// A message that is done makes no more calls.
pub proof fn lemma_no_more_calls<T, E>(
    step: spec_fn(Seq<Reply>) -> Step<T, E>,
    replies: Seq<Reply>,
    n: int,
)
    requires
        0 <= n <= replies.len(),
        forall|k: int| n <= k < replies.len() ==> step(#[trigger] replies.take(k)) is Done,
    ensures
        calls_of(step, replies) == calls_of(step, replies.take(n)),
    decreases replies.len() - n,
{
    if n == replies.len() {
        assert(replies.take(n) =~= replies);
    } else {
        lemma_no_more_calls(step, replies, n + 1);
        assert(step(replies.take(n)) is Done);
        assert(replies.take(n + 1).drop_last() =~= replies.take(n));
        assert(calls_of(step, replies.take(n + 1)) =~= calls_of(step, replies.take(n)));
    }
}

} // verus!
