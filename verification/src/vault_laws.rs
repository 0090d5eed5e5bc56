//! What holds of the alpha vault as a whole.
use vstd::prelude::*;
use crate::account::{AccountId, Balance};
use crate::host::{Context, Reply, Step};
use crate::lending::{law_debt_grows, whole_hours};
use crate::peers::AuctionRecord;
use crate::ratio::RATIO_ONE;
use crate::vault_alpha::{
    Vault, VaultContractParams, VaultContractParamsConfig, VaultGlobalParamsConfig, PAGE_SIZE,
};
use crate::vault_alpha_model::{
    accrue_next, accrue_result, add_next, add_step, borrow_next, borrow_step,
    cancel_globals_result, cancel_params_result, collateral_on, count_of, create_next,
    create_step, execute_globals_result, execute_params_result, globals_cancelled,
    globals_executed, globals_of, globals_scheduled, initial_alpha_state, opened_vault, page_bounds,
    params_cancelled, params_executed, params_of, params_on, params_scheduled, release_next,
    release_step, repay_next, repay_step, schedule_result, settle_next, settle_step, total_debt,
    trigger_next, trigger_step, with_interest, AlphaState,
};

verus! {

/// The key of a vault: its owner and its id.
pub type VaultKey = (AccountId, u32);

/// The sum of a quantity over keys.
pub open spec fn sum_over(keys: Seq<VaultKey>, of: spec_fn(VaultKey) -> int) -> int
    decreases keys.len(),
{
    if keys.len() == 0 {
        0
    } else {
        sum_over(keys.drop_last(), of) + of(keys.last())
    }
}

/// The collateral of all vaults.
pub open spec fn collateral_sum(s: AlphaState) -> int {
    sum_over(s.vault_keys, |k: VaultKey| s.vaults[k].collateral_balance as int)
}

/// The collateral of the vaults on a subnet.
pub open spec fn collateral_sum_on(s: AlphaState, netuid: u16) -> int {
    sum_over(
        s.vault_keys,
        |k: VaultKey|
            if s.vaults[k].netuid == netuid {
                s.vaults[k].collateral_balance as int
            } else {
                0
            },
    )
}

/// The debt of an owner's vaults.
pub open spec fn debt_sum(s: AlphaState, owner: AccountId) -> int {
    sum_over(
        s.vault_keys,
        |k: VaultKey|
            if k.0 == owner {
                s.vaults[k].debt_balance as int
            } else {
                0
            },
    )
}

/// Ratios under which a vault that may borrow is not liquidated at once.
pub open spec fn ratios_valid(p: VaultContractParams) -> bool {
    0 < p.liquidation_ratio.inner <= p.collateral_ratio.inner
}

/// Every vault is listed once, under its owner and its place among the owner's vaults; principal
/// stays within debt; the books of collateral, in all and by subnet, and of debt by owner are
/// the sums over the vaults; auctions belong to vaults; and the parameters, in force or waiting,
/// are valid.
pub open spec fn vault_inv(s: AlphaState) -> bool {
    &&& s.vault_keys.no_duplicates()
    &&& forall|k: VaultKey| #[trigger] s.vaults.contains_key(k) <==> s.vault_keys.contains(k)
    &&& forall|k: VaultKey| #[trigger] s.vaults.contains_key(k) <==> k.1 < count_of(s, k.0)
    &&& forall|k: VaultKey| #[trigger] s.vaults.contains_key(k) ==> vault_valid(k, s.vaults[k])
    &&& s.total_collateral_balance == collateral_sum(s)
    &&& forall|n: u16| #[trigger] collateral_on(s, n) == collateral_sum_on(s, n)
    &&& forall|o: AccountId| #[trigger] total_debt(s, o) == debt_sum(s, o)
    &&& forall|k: VaultKey| #[trigger]
        s.liquidation_auctions.contains_key(k) ==> s.vaults.contains_key(k)
    &&& params_inv(s)
}

/// A vault carries its key, and its principal stays within its debt.
pub open spec fn vault_valid(k: VaultKey, v: Vault) -> bool {
    v.owner == k.0 && v.id == k.1 && v.borrowed_token_balance <= v.debt_balance
}

/// The parameters in force and those that wait are valid.
pub open spec fn params_inv(s: AlphaState) -> bool {
    &&& forall|n: u16| #[trigger]
        s.netuid_params.contains_key(n) ==> ratios_valid(s.netuid_params[n])
    &&& s.global_params.transaction_fee.inner <= RATIO_ONE
    &&& forall|n: u16| #[trigger]
        s.pending_contract_params_updates.contains_key(n) ==> params_of(
            s.pending_contract_params_updates[n].params,
        ) is Ok
    &&& s.pending_global_params_update matches Some(p) ==> globals_of(p.params) is Ok
}

/// Two states with the same vaults, books and auctions.
pub open spec fn same_books(s: AlphaState, t: AlphaState) -> bool {
    &&& t.vaults == s.vaults
    &&& t.vault_keys == s.vault_keys
    &&& t.vault_count == s.vault_count
    &&& t.owner_total_debt == s.owner_total_debt
    &&& t.total_collateral_balance == s.total_collateral_balance
    &&& t.netuid_total_collateral == s.netuid_total_collateral
    &&& t.liquidation_auctions == s.liquidation_auctions
}

proof fn lemma_sum_pointwise(
    keys: Seq<VaultKey>,
    f: spec_fn(VaultKey) -> int,
    g: spec_fn(VaultKey) -> int,
    k: VaultKey,
    delta: int,
)
    requires
        keys.no_duplicates(),
        forall|x: VaultKey| #[trigger] keys.contains(x) && x != k ==> f(x) == g(x),
        keys.contains(k) ==> g(k) == f(k) + delta,
    ensures
        sum_over(keys, g) == sum_over(keys, f) + (if keys.contains(k) {
            delta
        } else {
            0
        }),
    decreases keys.len(),
{
    if keys.len() > 0 {
        let front = keys.drop_last();
        let last = keys.last();
        assert(keys.contains(last));
        assert forall|x: VaultKey| #[trigger] front.contains(x) implies keys.contains(x) by {
            let i = choose|i: int| 0 <= i < front.len() && front[i] == x;
            assert(keys[i] == x);
        }
        assert(front.no_duplicates());
        assert(!front.contains(last)) by {
            if front.contains(last) {
                let i = choose|i: int| 0 <= i < front.len() && front[i] == last;
                assert(keys[i] == keys[keys.len() - 1]);
            }
        }
        if keys.contains(k) && k != last {
            let i = choose|i: int| 0 <= i < keys.len() && keys[i] == k;
            assert(front[i] == k);
            assert(front.contains(k));
        }
        if k == last {
            assert(!front.contains(k));
        }
        lemma_sum_pointwise(front, f, g, k, delta);
    }
}

proof fn lemma_sum_nonnegative(keys: Seq<VaultKey>, f: spec_fn(VaultKey) -> int, k: VaultKey)
    requires
        forall|x: VaultKey| #[trigger] keys.contains(x) ==> f(x) >= 0,
    ensures
        sum_over(keys, f) >= 0,
        keys.contains(k) ==> sum_over(keys, f) >= f(k),
    decreases keys.len(),
{
    if keys.len() > 0 {
        let front = keys.drop_last();
        assert(keys.contains(keys.last()));
        assert forall|x: VaultKey| #[trigger] front.contains(x) implies keys.contains(x) by {
            let i = choose|i: int| 0 <= i < front.len() && front[i] == x;
            assert(keys[i] == x);
        }
        lemma_sum_nonnegative(front, f, k);
        if keys.contains(k) && k != keys.last() {
            let i = choose|i: int| 0 <= i < keys.len() && keys[i] == k;
            assert(front[i] == k);
            assert(front.contains(k));
        }
    }
}

proof fn lemma_sum_push(keys: Seq<VaultKey>, f: spec_fn(VaultKey) -> int, k: VaultKey)
    ensures
        sum_over(keys.push(k), f) == sum_over(keys, f) + f(k),
{
    assert(keys.push(k).drop_last() =~= keys);
}

/// The books cover each vault: the collateral in all and on its subnet, and its owner's debt.
pub proof fn law_books_cover_each_vault(s: AlphaState, key: VaultKey)
    requires
        vault_inv(s),
        s.vaults.contains_key(key),
    ensures
        s.total_collateral_balance >= s.vaults[key].collateral_balance,
        collateral_on(s, s.vaults[key].netuid) >= s.vaults[key].collateral_balance,
        total_debt(s, key.0) >= s.vaults[key].debt_balance,
{
    let n = s.vaults[key].netuid;
    assert(s.vault_keys.contains(key));
    assert(collateral_on(s, n) == collateral_sum_on(s, n));
    assert(total_debt(s, key.0) == debt_sum(s, key.0));
    lemma_sum_nonnegative(
        s.vault_keys,
        |k: VaultKey| s.vaults[k].collateral_balance as int,
        key,
    );
    lemma_sum_nonnegative(
        s.vault_keys,
        |k: VaultKey|
            if s.vaults[k].netuid == n {
                s.vaults[k].collateral_balance as int
            } else {
                0
            },
        key,
    );
    lemma_sum_nonnegative(
        s.vault_keys,
        |k: VaultKey|
            if k.0 == key.0 {
                s.vaults[k].debt_balance as int
            } else {
                0
            },
        key,
    );
}

/// A state in which one stored vault was replaced and the books followed.
spec fn replaced(s: AlphaState, t: AlphaState, key: VaultKey, v: Vault) -> bool {
    let before = s.vaults[key];
    &&& s.vaults.contains_key(key)
    &&& t.vaults == s.vaults.insert(key, v)
    &&& t.vault_keys == s.vault_keys
    &&& t.vault_count == s.vault_count
    &&& vault_valid(key, v)
    &&& v.netuid == before.netuid
    &&& t.total_collateral_balance == s.total_collateral_balance - before.collateral_balance
        + v.collateral_balance
    &&& forall|n: u16| #[trigger]
        collateral_on(t, n) == collateral_on(s, n) + (if n == v.netuid {
            v.collateral_balance - before.collateral_balance
        } else {
            0
        })
    &&& forall|o: AccountId| #[trigger]
        total_debt(t, o) == total_debt(s, o) + (if o == key.0 {
            v.debt_balance - before.debt_balance
        } else {
            0
        })
    &&& forall|k: VaultKey| #[trigger]
        t.liquidation_auctions.contains_key(k) ==> t.vaults.contains_key(k)
    &&& params_inv(t)
}

proof fn lemma_replaced_keeps(s: AlphaState, t: AlphaState, key: VaultKey, v: Vault)
    requires
        vault_inv(s),
        replaced(s, t, key, v),
    ensures
        vault_inv(t),
{
    let before = s.vaults[key];
    assert(s.vault_keys.contains(key));
    assert forall|k: VaultKey| #[trigger] t.vaults.contains_key(k) implies vault_valid(
        k,
        t.vaults[k],
    ) by {
        assert(k == key || s.vaults.contains_key(k));
    }
    assert forall|k: VaultKey| #[trigger]
        t.vaults.contains_key(k) <==> t.vault_keys.contains(k) by {
        assert(s.vaults.contains_key(k) <==> s.vault_keys.contains(k));
    }
    assert forall|k: VaultKey| #[trigger]
        t.vaults.contains_key(k) <==> k.1 < count_of(t, k.0) by {
        assert(s.vaults.contains_key(k) <==> k.1 < count_of(s, k.0));
    }
    lemma_sum_pointwise(
        s.vault_keys,
        |k: VaultKey| s.vaults[k].collateral_balance as int,
        |k: VaultKey| t.vaults[k].collateral_balance as int,
        key,
        v.collateral_balance - before.collateral_balance,
    );
    assert forall|n: u16| #[trigger] collateral_on(t, n) == collateral_sum_on(t, n) by {
        assert(collateral_on(s, n) == collateral_sum_on(s, n));
        lemma_sum_pointwise(
            s.vault_keys,
            |k: VaultKey|
                if s.vaults[k].netuid == n {
                    s.vaults[k].collateral_balance as int
                } else {
                    0
                },
            |k: VaultKey|
                if t.vaults[k].netuid == n {
                    t.vaults[k].collateral_balance as int
                } else {
                    0
                },
            key,
            if n == v.netuid {
                v.collateral_balance - before.collateral_balance
            } else {
                0
            },
        );
    }
    assert forall|o: AccountId| #[trigger] total_debt(t, o) == debt_sum(t, o) by {
        assert(total_debt(s, o) == debt_sum(s, o));
        lemma_sum_pointwise(
            s.vault_keys,
            |k: VaultKey|
                if k.0 == o {
                    s.vaults[k].debt_balance as int
                } else {
                    0
                },
            |k: VaultKey|
                if k.0 == o {
                    t.vaults[k].debt_balance as int
                } else {
                    0
                },
            key,
            if o == key.0 {
                v.debt_balance - before.debt_balance
            } else {
                0
            },
        );
    }
}

proof fn lemma_same_books_keep(s: AlphaState, t: AlphaState)
    requires
        vault_inv(s),
        same_books(s, t),
        params_inv(t),
    ensures
        vault_inv(t),
{
    assert forall|k: VaultKey| #[trigger]
        t.vaults.contains_key(k) <==> t.vault_keys.contains(k) by {
        assert(s.vaults.contains_key(k) <==> s.vault_keys.contains(k));
    }
    assert forall|k: VaultKey| #[trigger]
        t.vaults.contains_key(k) <==> k.1 < count_of(t, k.0) by {
        assert(s.vaults.contains_key(k) <==> k.1 < count_of(s, k.0));
    }
    assert forall|k: VaultKey| #[trigger] t.vaults.contains_key(k) implies vault_valid(
        k,
        t.vaults[k],
    ) by {
        assert(s.vaults.contains_key(k));
    }
    assert forall|k: VaultKey| #[trigger]
        t.liquidation_auctions.contains_key(k) implies t.vaults.contains_key(k) by {
        assert(s.liquidation_auctions.contains_key(k));
    }
    assert(collateral_sum(t) == collateral_sum(s));
    assert forall|n: u16| #[trigger] collateral_on(t, n) == collateral_sum_on(t, n) by {
        assert(collateral_on(s, n) == collateral_sum_on(s, n));
        assert(collateral_sum_on(t, n) == collateral_sum_on(s, n));
    }
    assert forall|o: AccountId| #[trigger] total_debt(t, o) == debt_sum(t, o) by {
        assert(total_debt(s, o) == debt_sum(s, o));
        assert(debt_sum(t, o) == debt_sum(s, o));
    }
}

proof fn lemma_interest_keeps(s: AlphaState, ctx: Context, v: Vault)
    requires
        with_interest(s, ctx, v) is Ok,
    ensures
        ({
            let w = with_interest(s, ctx, v)->Ok_0;
            &&& w.id == v.id
            &&& w.owner == v.owner
            &&& w.netuid == v.netuid
            &&& w.collateral_balance == v.collateral_balance
            &&& w.borrowed_token_balance == v.borrowed_token_balance
            &&& w.debt_balance >= v.debt_balance
            &&& w.created_at == v.created_at
        }),
{
    law_debt_grows(
        v.debt_balance,
        params_on(s, v.netuid).interest_rate,
        whole_hours(v.last_interest_accrued_at, ctx.now),
    );
}

// ── Every message keeps the books ───────────────────────────────────

/// A fresh vault contract is consistent.
pub proof fn law_new_is_consistent(
    governance: AccountId,
    treasury: AccountId,
    hotkey: AccountId,
    token: AccountId,
    auction: AccountId,
    oracle: AccountId,
)
    ensures
        vault_inv(initial_alpha_state(governance, treasury, hotkey, token, auction, oracle)),
{
}

/// Scheduling, executing and cancelling parameter updates keeps the vault consistent.
pub proof fn law_params_keep_consistency(
    s: AlphaState,
    ctx: Context,
    netuid: u16,
    config: VaultContractParamsConfig,
    globals: VaultGlobalParamsConfig,
)
    requires
        vault_inv(s),
    ensures
        schedule_result(s, ctx, params_of(config)) matches Ok(t) ==> vault_inv(
            params_scheduled(s, netuid, config, t),
        ),
        execute_params_result(s, ctx, netuid) matches Ok(p) ==> vault_inv(
            params_executed(s, netuid, p),
        ),
        cancel_params_result(s, ctx, netuid) is Ok ==> vault_inv(params_cancelled(s, netuid)),
        schedule_result(s, ctx, globals_of(globals)) matches Ok(t) ==> vault_inv(
            globals_scheduled(s, globals, t),
        ),
        execute_globals_result(s, ctx) matches Ok(p) ==> vault_inv(globals_executed(s, p)),
        cancel_globals_result(s, ctx) is Ok ==> vault_inv(globals_cancelled(s)),
{
    if let Ok(t) = schedule_result(s, ctx, params_of(config)) {
        let u = params_scheduled(s, netuid, config, t);
        assert(same_books(s, u));
        lemma_same_books_keep(s, u);
    }
    if let Ok(p) = execute_params_result(s, ctx, netuid) {
        let u = params_executed(s, netuid, p);
        assert(same_books(s, u));
        lemma_params_of(s.pending_contract_params_updates[netuid].params);
        assert(params_inv(u));
        lemma_same_books_keep(s, u);
    }
    if cancel_params_result(s, ctx, netuid) is Ok {
        let u = params_cancelled(s, netuid);
        assert(same_books(s, u));
        lemma_same_books_keep(s, u);
    }
    if let Ok(t) = schedule_result(s, ctx, globals_of(globals)) {
        let u = globals_scheduled(s, globals, t);
        assert(same_books(s, u));
        lemma_same_books_keep(s, u);
    }
    if let Ok(p) = execute_globals_result(s, ctx) {
        let u = globals_executed(s, p);
        assert(same_books(s, u));
        lemma_same_books_keep(s, u);
    }
    if cancel_globals_result(s, ctx) is Ok {
        let u = globals_cancelled(s);
        assert(same_books(s, u));
        lemma_same_books_keep(s, u);
    }
}

proof fn lemma_params_of(c: VaultContractParamsConfig)
    ensures
        params_of(c) matches Ok(p) ==> ratios_valid(p),
{
}

/// Messages that change roles, the pause, the approved subnets, a deposit or only the events
/// keep the vault consistent.
pub proof fn law_admin_keeps_consistency(s: AlphaState, t: AlphaState)
    requires
        vault_inv(s),
        same_books(s, t),
        t.netuid_params == s.netuid_params,
        t.pending_contract_params_updates == s.pending_contract_params_updates,
        t.global_params == s.global_params,
        t.pending_global_params_update == s.pending_global_params_update,
    ensures
        vault_inv(t),
{
    assert(params_inv(t)) by {
        assert forall|n: u16| #[trigger] t.netuid_params.contains_key(n) implies ratios_valid(
            t.netuid_params[n],
        ) by {
            assert(s.netuid_params.contains_key(n));
        }
    }
    lemma_same_books_keep(s, t);
}

/// Opening a vault keeps the books.
pub proof fn law_create_keeps_consistency(
    s: AlphaState,
    ctx: Context,
    netuid: u16,
    replies: Seq<Reply>,
)
    requires
        vault_inv(s),
        create_step(s, ctx, netuid, replies) matches Step::Done(Ok(_)),
    ensures
        vault_inv(create_next(s, ctx, netuid)),
{
    let t = create_next(s, ctx, netuid);
    let key = (ctx.caller, count_of(s, ctx.caller));
    let v = opened_vault(s, ctx, netuid);
    assert(!s.vaults.contains_key(key));
    assert(!s.vault_keys.contains(key));
    assert(t.vaults == s.vaults.insert(key, v));
    assert(t.vault_keys == s.vault_keys.push(key));
    assert(t.vault_keys.no_duplicates()) by {
        assert forall|i: int, j: int|
            0 <= i < t.vault_keys.len() && 0 <= j < t.vault_keys.len() && i
                != j implies t.vault_keys[i] != t.vault_keys[j] by {
            if i == s.vault_keys.len() {
                assert(s.vault_keys.contains(s.vault_keys[j]));
            } else if j == s.vault_keys.len() {
                assert(s.vault_keys.contains(s.vault_keys[i]));
            }
        }
    }
    assert forall|k: VaultKey| #[trigger]
        t.vaults.contains_key(k) <==> t.vault_keys.contains(k) by {
        assert(s.vaults.contains_key(k) <==> s.vault_keys.contains(k));
        if s.vault_keys.contains(k) {
            let i = choose|i: int| 0 <= i < s.vault_keys.len() && s.vault_keys[i] == k;
            assert(t.vault_keys[i] == k);
        }
        if k == key {
            assert(t.vault_keys[s.vault_keys.len() as int] == k);
        }
        if t.vault_keys.contains(k) && k != key {
            let i = choose|i: int| 0 <= i < t.vault_keys.len() && t.vault_keys[i] == k;
            assert(s.vault_keys[i] == k);
        }
    }
    assert forall|k: VaultKey| #[trigger]
        t.vaults.contains_key(k) <==> k.1 < count_of(t, k.0) by {
        assert(s.vaults.contains_key(k) <==> k.1 < count_of(s, k.0));
    }
    assert forall|k: VaultKey| #[trigger] t.vaults.contains_key(k) implies vault_valid(
        k,
        t.vaults[k],
    ) by {
        assert(k == key || s.vaults.contains_key(k));
    }
    assert forall|k: VaultKey| #[trigger]
        t.liquidation_auctions.contains_key(k) implies t.vaults.contains_key(k) by {
        assert(s.liquidation_auctions.contains_key(k));
    }
    let amount = v.collateral_balance;
    lemma_sum_push(s.vault_keys, |k: VaultKey| t.vaults[k].collateral_balance as int, key);
    lemma_sum_pointwise(
        s.vault_keys,
        |k: VaultKey| s.vaults[k].collateral_balance as int,
        |k: VaultKey| t.vaults[k].collateral_balance as int,
        key,
        0,
    );
    assert forall|n: u16| #[trigger] collateral_on(t, n) == collateral_sum_on(t, n) by {
        assert(collateral_on(s, n) == collateral_sum_on(s, n));
        let f = |k: VaultKey|
            if s.vaults[k].netuid == n {
                s.vaults[k].collateral_balance as int
            } else {
                0
            };
        let g = |k: VaultKey|
            if t.vaults[k].netuid == n {
                t.vaults[k].collateral_balance as int
            } else {
                0
            };
        lemma_sum_push(s.vault_keys, g, key);
        lemma_sum_pointwise(s.vault_keys, f, g, key, 0);
    }
    assert forall|o: AccountId| #[trigger] total_debt(t, o) == debt_sum(t, o) by {
        assert(total_debt(s, o) == debt_sum(s, o));
        let f = |k: VaultKey|
            if k.0 == o {
                s.vaults[k].debt_balance as int
            } else {
                0
            };
        let g = |k: VaultKey|
            if k.0 == o {
                t.vaults[k].debt_balance as int
            } else {
                0
            };
        lemma_sum_push(s.vault_keys, g, key);
        lemma_sum_pointwise(s.vault_keys, f, g, key, 0);
    }
}

/// Adding collateral keeps the books.
pub proof fn law_add_keeps_consistency(
    s: AlphaState,
    ctx: Context,
    vault_id: u32,
    replies: Seq<Reply>,
)
    requires
        vault_inv(s),
        add_step(s, ctx, vault_id, replies) matches Step::Done(Ok(_)),
    ensures
        vault_inv(add_next(s, ctx, vault_id, replies)),
{
    let key = (ctx.caller, vault_id);
    let t = add_next(s, ctx, vault_id, replies);
    lemma_replaced_keeps(s, t, key, t.vaults[key]);
}

/// Borrowing keeps the books.
pub proof fn law_borrow_keeps_consistency(
    s: AlphaState,
    ctx: Context,
    vault_id: u32,
    amount: Balance,
    replies: Seq<Reply>,
)
    requires
        vault_inv(s),
        borrow_step(s, ctx, vault_id, amount, replies) matches Step::Done(Ok(_)),
    ensures
        vault_inv(borrow_next(s, ctx, vault_id, amount)),
{
    let key = (ctx.caller, vault_id);
    let t = borrow_next(s, ctx, vault_id, amount);
    lemma_interest_keeps(s, ctx, s.vaults[key]);
    lemma_replaced_keeps(s, t, key, t.vaults[key]);
}

/// Repaying keeps the books.
pub proof fn law_repay_keeps_consistency(
    s: AlphaState,
    ctx: Context,
    vault_id: u32,
    amount: Balance,
    replies: Seq<Reply>,
)
    requires
        vault_inv(s),
        repay_step(s, ctx, vault_id, amount, replies) matches Step::Done(Ok(_)),
    ensures
        vault_inv(repay_next(s, ctx, vault_id, amount)),
{
    let key = (ctx.caller, vault_id);
    let t = repay_next(s, ctx, vault_id, amount);
    lemma_interest_keeps(s, ctx, s.vaults[key]);
    lemma_replaced_keeps(s, t, key, t.vaults[key]);
}

/// Accruing interest keeps the books.
pub proof fn law_accrue_keeps_consistency(
    s: AlphaState,
    ctx: Context,
    owner: AccountId,
    vault_id: u32,
)
    requires
        vault_inv(s),
        accrue_result(s, ctx, owner, vault_id) is Ok,
    ensures
        vault_inv(accrue_next(s, ctx, owner, vault_id)),
{
    let key = (owner, vault_id);
    let t = accrue_next(s, ctx, owner, vault_id);
    lemma_interest_keeps(s, ctx, s.vaults[key]);
    lemma_replaced_keeps(s, t, key, t.vaults[key]);
}

/// Releasing collateral keeps the books.
pub proof fn law_release_keeps_consistency(
    s: AlphaState,
    ctx: Context,
    vault_id: u32,
    amount: Balance,
    dest_coldkey: AccountId,
    replies: Seq<Reply>,
)
    requires
        vault_inv(s),
        release_step(s, ctx, vault_id, amount, dest_coldkey, replies) matches Step::Done(Ok(_)),
    ensures
        vault_inv(release_next(s, ctx, vault_id, amount, dest_coldkey)),
{
    let key = (ctx.caller, vault_id);
    let t = release_next(s, ctx, vault_id, amount, dest_coldkey);
    lemma_interest_keeps(s, ctx, s.vaults[key]);
    lemma_replaced_keeps(s, t, key, t.vaults[key]);
}

/// Opening a liquidation auction keeps the books.
pub proof fn law_trigger_keeps_consistency(
    s: AlphaState,
    ctx: Context,
    owner: AccountId,
    vault_id: u32,
    replies: Seq<Reply>,
)
    requires
        vault_inv(s),
        trigger_step(s, ctx, owner, vault_id, replies) matches Step::Done(Ok(_)),
    ensures
        trigger_step(s, ctx, owner, vault_id, replies) matches Step::Done(Ok(id)) ==> vault_inv(
            trigger_next(s, ctx, owner, vault_id, id),
        ),
{
    let key = (owner, vault_id);
    if let Step::Done(Ok(id)) = trigger_step(s, ctx, owner, vault_id, replies) {
        let t = trigger_next(s, ctx, owner, vault_id, id);
        lemma_interest_keeps(s, ctx, s.vaults[key]);
        lemma_replaced_keeps(s, t, key, t.vaults[key]);
    }
}

/// Settling a liquidation auction keeps the books.
pub proof fn law_settle_keeps_consistency(
    s: AlphaState,
    ctx: Context,
    owner: AccountId,
    vault_id: u32,
    a: AuctionRecord,
    replies: Seq<Reply>,
)
    requires
        vault_inv(s),
        replies.len() > 0,
        replies[0] == Reply::Auction(Some(a)),
        settle_step(s, ctx, owner, vault_id, replies) matches Step::Done(Ok(_)),
    ensures
        vault_inv(settle_next(s, owner, vault_id, a)),
{
    let key = (owner, vault_id);
    let t = settle_next(s, owner, vault_id, a);
    lemma_replaced_keeps(s, t, key, t.vaults[key]);
}

/// In a consistent state every listed vault is stored, so that a page can always be read.
pub proof fn law_pages_are_stored(s: AlphaState, owner: AccountId, page: u32)
    requires
        vault_inv(s),
    ensures
        forall|id: u32|
            page_bounds(page, count_of(s, owner) as int).0 <= id < page_bounds(
                page,
                count_of(s, owner) as int,
            ).1 ==> #[trigger] s.vaults.contains_key((owner, id)),
        forall|i: int|
            page_bounds(page, s.vault_keys.len() as int).0 <= i < page_bounds(
                page,
                s.vault_keys.len() as int,
            ).1 ==> s.vaults.contains_key(#[trigger] s.vault_keys[i]),
{
    assert forall|i: int| 0 <= i < s.vault_keys.len() implies s.vaults.contains_key(
        #[trigger] s.vault_keys[i],
    ) by {
        assert(s.vault_keys.contains(s.vault_keys[i]));
    }
}

/// Every place of a list lies on exactly one page.
pub proof fn law_pages_cover_once(i: u32, total: u32, page: u32)
    requires
        i < total,
    ensures
        page_bounds(page, total as int).0 <= i < page_bounds(page, total as int).1 <==> page == i
            / PAGE_SIZE,
{
    let start = page * PAGE_SIZE;
    assert(page == i / PAGE_SIZE <==> start <= i < start + PAGE_SIZE);
}

} // verus!
