//! A market together with all who hold its shares, and what stays true of
//! them however settlements and burns follow one another.
//!
//! Holders are kept by index, beside the market and not inside it: an
//! operation names the holder it acts for and touches no other.

use crate::controller::lp::{
    burn_outcome, lemma_burn_settles_first, lemma_settle_effect, settle_outcome,
};
use crate::math::lp::{accrued_share, lp_metrics};
use crate::state::market::{Market, AMM};
use crate::state::user::MarketPosition;
use vstd::prelude::*;

verus! {

/// A market and the positions of its share holders.
pub struct Ledger {
    pub market: Market,
    pub holders: Seq<MarketPosition>,
}

/// One operation on a ledger, for the holder at an index.
pub enum LpOperation {
    Settle { holder: int },
    Burn { holder: int, shares_to_burn: u128 },
}

/// The shares of all holders together.
pub open spec fn total_lp_shares(holders: Seq<MarketPosition>) -> nat
    decreases holders.len(),
{
    if holders.len() == 0 {
        0
    } else {
        total_lp_shares(holders.drop_last()) + holders.last().lp_shares as nat
    }
}

/// The base amount that a settlement would owe to `position`: its share of
/// the growth of the base counter since its marker, rounded down. Nothing
/// is owed where the marker is not behind the counter, and nothing where no
/// shares are outstanding to split the growth by.
pub open spec fn unsettled_base_claim(position: MarketPosition, amm: AMM) -> nat {
    let counter = amm.market_position_per_lp.base_asset_amount;
    let marker = position.last_cumulative_net_base_asset_amount_per_lp;
    if counter <= marker || amm.total_lp_shares_basis() == 0 {
        0
    } else {
        (((counter - marker) * position.lp_shares) / (amm.total_lp_shares_basis() as int)) as nat
    }
}

/// The base amounts owed to all holders together.
pub open spec fn total_base_claims(holders: Seq<MarketPosition>, amm: AMM) -> nat
    decreases holders.len(),
{
    if holders.len() == 0 {
        0
    } else {
        total_base_claims(holders.drop_last(), amm) + unsettled_base_claim(holders.last(), amm)
    }
}

/// The market counts exactly the shares that the holders have.
pub open spec fn shares_balanced(ledger: Ledger) -> bool {
    total_lp_shares(ledger.holders) == ledger.market.amm.user_lp_shares
}

/// What the holders are owed is covered by what the market has set aside
/// for them.
pub open spec fn claims_covered(ledger: Ledger) -> bool {
    total_base_claims(ledger.holders, ledger.market.amm)
        <= ledger.market.amm.net_unsettled_lp_base_asset_amount
}

/// The ledger after one operation. An operation that fails, or that names
/// no holder, leaves the ledger as it was.
pub open spec fn ledger_step(ledger: Ledger, op: LpOperation) -> Ledger {
    match op {
        LpOperation::Settle { holder } => {
            if 0 <= holder < ledger.holders.len() {
                match settle_outcome(ledger.holders[holder], ledger.market) {
                    Ok((p, m)) => Ledger { market: m, holders: ledger.holders.update(holder, p) },
                    Err(_) => ledger,
                }
            } else {
                ledger
            }
        },
        LpOperation::Burn { holder, shares_to_burn } => {
            if 0 <= holder < ledger.holders.len() {
                match burn_outcome(ledger.holders[holder], ledger.market, shares_to_burn) {
                    Ok((p, m)) => Ledger { market: m, holders: ledger.holders.update(holder, p) },
                    Err(_) => ledger,
                }
            } else {
                ledger
            }
        },
    }
}

/// The ledger after a sequence of operations, first to last.
pub open spec fn ledger_run(ledger: Ledger, ops: Seq<LpOperation>) -> Ledger
    decreases ops.len(),
{
    if ops.len() == 0 {
        ledger
    } else {
        ledger_step(ledger_run(ledger, ops.drop_last()), ops.last())
    }
}

/// Whether no other holder than the one at `holder` is owed any base,
/// whatever the number of shares outstanding.
pub open spec fn others_settled(ledger: Ledger, holder: int) -> bool {
    forall|j: int|
        0 <= j < ledger.holders.len() && j != holder ==> {
            ||| (#[trigger] ledger.holders[j]).lp_shares == 0
            ||| ledger.market.amm.market_position_per_lp.base_asset_amount
                <= ledger.holders[j].last_cumulative_net_base_asset_amount_per_lp
        }
}

/// Replacing one holder changes the total of shares by the difference
/// between the two.
proof fn lemma_total_shares_update(holders: Seq<MarketPosition>, i: int, p: MarketPosition)
    requires
        0 <= i < holders.len(),
    ensures
        total_lp_shares(holders.update(i, p)) == total_lp_shares(holders) - holders[i].lp_shares
            + p.lp_shares,
    decreases holders.len(),
{
    if i == holders.len() - 1 {
        assert(holders.update(i, p).drop_last() =~= holders.drop_last());
    } else {
        assert(holders.update(i, p).drop_last() =~= holders.drop_last().update(i, p));
        lemma_total_shares_update(holders.drop_last(), i, p);
    }
}

/// Replacing one holder changes the total of claims by the difference
/// between the two.
proof fn lemma_total_claims_update(
    holders: Seq<MarketPosition>,
    amm: AMM,
    i: int,
    p: MarketPosition,
)
    requires
        0 <= i < holders.len(),
    ensures
        total_base_claims(holders.update(i, p), amm) == total_base_claims(holders, amm)
            - unsettled_base_claim(holders[i], amm) + unsettled_base_claim(p, amm),
    decreases holders.len(),
{
    if i == holders.len() - 1 {
        assert(holders.update(i, p).drop_last() =~= holders.drop_last());
    } else {
        assert(holders.update(i, p).drop_last() =~= holders.drop_last().update(i, p));
        lemma_total_claims_update(holders.drop_last(), amm, i, p);
    }
}

/// Claims depend on the market only through the base counter and the
/// shares outstanding.
proof fn lemma_total_claims_same(holders: Seq<MarketPosition>, a: AMM, b: AMM)
    requires
        a.market_position_per_lp.base_asset_amount == b.market_position_per_lp.base_asset_amount,
        a.user_lp_shares == b.user_lp_shares,
    ensures
        total_base_claims(holders, a) == total_base_claims(holders, b),
    decreases holders.len(),
{
    if holders.len() > 0 {
        lemma_total_claims_same(holders.drop_last(), a, b);
    }
}

/// Where every holder but one is owed nothing, the total is what that one
/// is owed.
proof fn lemma_total_claims_of_one(holders: Seq<MarketPosition>, amm: AMM, i: int)
    requires
        0 <= i < holders.len(),
        forall|j: int|
            0 <= j < holders.len() && j != i ==> {
                ||| (#[trigger] holders[j]).lp_shares == 0
                ||| amm.market_position_per_lp.base_asset_amount
                    <= holders[j].last_cumulative_net_base_asset_amount_per_lp
            },
    ensures
        total_base_claims(holders, amm) == unsettled_base_claim(holders[i], amm),
    decreases holders.len(),
{
    let rest = holders.drop_last();
    let last = holders.len() - 1;
    if i == last {
        lemma_total_claims_none(rest, amm);
    } else {
        assert(holders[last].lp_shares == 0 || amm.market_position_per_lp.base_asset_amount
            <= holders[last].last_cumulative_net_base_asset_amount_per_lp);
        lemma_claim_of_nothing(holders[last], amm);
        assert forall|j: int| 0 <= j < rest.len() && j != i implies {
            ||| (#[trigger] rest[j]).lp_shares == 0
            ||| amm.market_position_per_lp.base_asset_amount
                <= rest[j].last_cumulative_net_base_asset_amount_per_lp
        } by {
            assert(rest[j] == holders[j]);
        }
        lemma_total_claims_of_one(rest, amm, i);
    }
}

/// Where no holder is owed anything, the total is nothing.
proof fn lemma_total_claims_none(holders: Seq<MarketPosition>, amm: AMM)
    requires
        forall|j: int|
            0 <= j < holders.len() ==> {
                ||| (#[trigger] holders[j]).lp_shares == 0
                ||| amm.market_position_per_lp.base_asset_amount
                    <= holders[j].last_cumulative_net_base_asset_amount_per_lp
            },
    ensures
        total_base_claims(holders, amm) == 0,
    decreases holders.len(),
{
    if holders.len() > 0 {
        let rest = holders.drop_last();
        let last = holders.len() - 1;
        assert(holders[last].lp_shares == 0 || amm.market_position_per_lp.base_asset_amount
            <= holders[last].last_cumulative_net_base_asset_amount_per_lp);
        lemma_claim_of_nothing(holders[last], amm);
        assert forall|j: int| 0 <= j < rest.len() implies {
            ||| (#[trigger] rest[j]).lp_shares == 0
            ||| amm.market_position_per_lp.base_asset_amount
                <= rest[j].last_cumulative_net_base_asset_amount_per_lp
        } by {
            assert(rest[j] == holders[j]);
        }
        lemma_total_claims_none(rest, amm);
    }
}

/// A holder without shares, or with its marker at or ahead of the counter,
/// is owed nothing.
proof fn lemma_claim_of_nothing(position: MarketPosition, amm: AMM)
    requires
        position.lp_shares == 0 || amm.market_position_per_lp.base_asset_amount
            <= position.last_cumulative_net_base_asset_amount_per_lp,
    ensures
        unsettled_base_claim(position, amm) == 0,
{
    let counter = amm.market_position_per_lp.base_asset_amount;
    let marker = position.last_cumulative_net_base_asset_amount_per_lp;
    let basis = amm.total_lp_shares_basis();
    if counter > marker && basis > 0 {
        assert(((counter - marker) * position.lp_shares) / (basis as int) == 0)
            by (nonlinear_arith)
            requires
                position.lp_shares == 0,
                basis > 0,
        ;
    }
}

/// What a holder is owed is the base amount of its metrics, wherever the
/// metrics can be computed.
proof fn lemma_claim_is_metrics_base(position: MarketPosition, amm: AMM)
    requires
        lp_metrics(position, amm) is Ok,
    ensures
        unsettled_base_claim(position, amm) == lp_metrics(position, amm)->Ok_0.base_asset_amount,
{
    let counter = amm.market_position_per_lp.base_asset_amount;
    let marker = position.last_cumulative_net_base_asset_amount_per_lp;
    let basis = amm.total_lp_shares_basis();
    let growth = (counter - marker) as u128;
    let share = accrued_share(counter, marker, position.lp_shares, basis);
    assert(share is Ok);
    assert(counter >= marker && basis > 0);
    assert(share->Ok_0 == (growth * position.lp_shares) / (basis as int));
    if counter == marker {
        assert((growth * position.lp_shares) / (basis as int) == 0) by (nonlinear_arith)
            requires
                growth == 0,
                basis > 0,
        ;
    } else {
        assert(growth * position.lp_shares == (counter - marker) * position.lp_shares);
    }
}

/// One settlement keeps the shares balanced and the claims covered: the
/// holder's claim leaves the total as the same amount leaves what the
/// market has set aside, and no other holder's claim moves.
pub proof fn lemma_settle_keeps_solvency(ledger: Ledger, holder: int)
    ensures
        shares_balanced(ledger) ==> shares_balanced(
            ledger_step(ledger, LpOperation::Settle { holder }),
        ),
        claims_covered(ledger) ==> claims_covered(
            ledger_step(ledger, LpOperation::Settle { holder }),
        ),
{
    if 0 <= holder < ledger.holders.len() && settle_outcome(
        ledger.holders[holder],
        ledger.market,
    ) is Ok {
        let before = ledger.holders[holder];
        let (p, m) = settle_outcome(before, ledger.market)->Ok_0;
        lemma_settle_effect(before, ledger.market);
        lemma_claim_is_metrics_base(before, ledger.market.amm);
        lemma_total_shares_update(ledger.holders, holder, p);
        lemma_total_claims_update(ledger.holders, m.amm, holder, p);
        lemma_total_claims_same(ledger.holders, ledger.market.amm, m.amm);
        lemma_claim_of_nothing(p, m.amm);
        assert(unsettled_base_claim(before, m.amm) == unsettled_base_claim(
            before,
            ledger.market.amm,
        ));
    }
}

/// One burn keeps the shares balanced: the shares that leave the holder
/// are the shares that leave the market.
pub proof fn lemma_burn_keeps_shares_balanced(ledger: Ledger, holder: int, shares_to_burn: u128)
    requires
        shares_balanced(ledger),
    ensures
        shares_balanced(ledger_step(ledger, LpOperation::Burn { holder, shares_to_burn })),
{
    if 0 <= holder < ledger.holders.len() && burn_outcome(
        ledger.holders[holder],
        ledger.market,
        shares_to_burn,
    ) is Ok {
        let before = ledger.holders[holder];
        let (p, m) = burn_outcome(before, ledger.market, shares_to_burn)->Ok_0;
        lemma_settle_effect(before, ledger.market);
        lemma_total_shares_update(ledger.holders, holder, p);
    }
}

/// One burn keeps the claims covered where it burns nothing or no other
/// holder is owed anything. (With fewer shares outstanding, every share's
/// slice of an unsettled counter grows, so a holder who has not settled can
/// be owed more after another's burn than the market has set aside.)
pub proof fn lemma_burn_keeps_claims_covered(ledger: Ledger, holder: int, shares_to_burn: u128)
    requires
        claims_covered(ledger),
        shares_to_burn == 0 || others_settled(ledger, holder),
    ensures
        claims_covered(ledger_step(ledger, LpOperation::Burn { holder, shares_to_burn })),
{
    if 0 <= holder < ledger.holders.len() && burn_outcome(
        ledger.holders[holder],
        ledger.market,
        shares_to_burn,
    ) is Ok {
        let before = ledger.holders[holder];
        let (p, m) = burn_outcome(before, ledger.market, shares_to_burn)->Ok_0;
        let after = ledger.holders.update(holder, p);
        lemma_settle_effect(before, ledger.market);
        lemma_burn_settles_first(before, ledger.market, shares_to_burn);
        lemma_claim_is_metrics_base(before, ledger.market.amm);
        lemma_claim_of_nothing(p, m.amm);
        if shares_to_burn == 0 {
            lemma_total_claims_update(ledger.holders, m.amm, holder, p);
            lemma_total_claims_same(ledger.holders, ledger.market.amm, m.amm);
            assert(unsettled_base_claim(before, m.amm) == unsettled_base_claim(
                before,
                ledger.market.amm,
            ));
        } else {
            lemma_total_claims_of_one(ledger.holders, ledger.market.amm, holder);
            assert forall|j: int| 0 <= j < after.len() && j != holder implies {
                ||| (#[trigger] after[j]).lp_shares == 0
                ||| m.amm.market_position_per_lp.base_asset_amount
                    <= after[j].last_cumulative_net_base_asset_amount_per_lp
            } by {
                assert(after[j] == ledger.holders[j]);
            }
            lemma_total_claims_of_one(after, m.amm, holder);
        }
    }
}

/// Whatever else a burn does, it takes out of what the market has set
/// aside no more than the burning holder's own claim: measured against the
/// shares that were outstanding before the burn, the claims of all holders
/// are as well covered after it as they were before.
pub proof fn lemma_burn_takes_only_own_claim(ledger: Ledger, holder: int, shares_to_burn: u128)
    requires
        claims_covered(ledger),
    ensures
        ({
            let after = ledger_step(ledger, LpOperation::Burn { holder, shares_to_burn });
            total_base_claims(
                after.holders,
                AMM { user_lp_shares: ledger.market.amm.user_lp_shares, ..after.market.amm },
            ) <= after.market.amm.net_unsettled_lp_base_asset_amount
        }),
{
    if 0 <= holder < ledger.holders.len() && burn_outcome(
        ledger.holders[holder],
        ledger.market,
        shares_to_burn,
    ) is Ok {
        let before = ledger.holders[holder];
        let (p, m) = burn_outcome(before, ledger.market, shares_to_burn)->Ok_0;
        let measured = AMM { user_lp_shares: ledger.market.amm.user_lp_shares, ..m.amm };
        lemma_settle_effect(before, ledger.market);
        lemma_burn_settles_first(before, ledger.market, shares_to_burn);
        lemma_claim_is_metrics_base(before, ledger.market.amm);
        lemma_claim_of_nothing(p, measured);
        lemma_total_claims_update(ledger.holders, measured, holder, p);
        lemma_total_claims_same(ledger.holders, ledger.market.amm, measured);
        assert(unsettled_base_claim(before, measured) == unsettled_base_claim(
            before,
            ledger.market.amm,
        ));
    } else {
        assert(AMM { user_lp_shares: ledger.market.amm.user_lp_shares, ..ledger.market.amm }
            == ledger.market.amm);
    }
}

/// The share count stays whole: however settlements and burns follow one
/// another, for whichever holders, and whether each succeeds or fails, the
/// holders' shares add up to the shares that the market counts.
pub proof fn lemma_shares_stay_balanced(ledger: Ledger, ops: Seq<LpOperation>)
    requires
        shares_balanced(ledger),
    ensures
        shares_balanced(ledger_run(ledger, ops)),
    decreases ops.len(),
{
    if ops.len() > 0 {
        lemma_shares_stay_balanced(ledger, ops.drop_last());
        let reached = ledger_run(ledger, ops.drop_last());
        match ops.last() {
            LpOperation::Settle { holder } => {
                lemma_settle_keeps_solvency(reached, holder);
            },
            LpOperation::Burn { holder, shares_to_burn } => {
                lemma_burn_keeps_shares_balanced(reached, holder, shares_to_burn);
            },
        }
    }
}

/// The claims stay covered: however settlements follow one another, what
/// the holders are owed is no more than what the market has set aside.
pub proof fn lemma_settlements_keep_claims_covered(ledger: Ledger, ops: Seq<LpOperation>)
    requires
        claims_covered(ledger),
        forall|i: int| 0 <= i < ops.len() ==> #[trigger] ops[i] is Settle,
    ensures
        claims_covered(ledger_run(ledger, ops)),
    decreases ops.len(),
{
    if ops.len() > 0 {
        let earlier = ops.drop_last();
        assert forall|i: int| 0 <= i < earlier.len() implies #[trigger] earlier[i] is Settle by {
            assert(earlier[i] == ops[i]);
        }
        lemma_settlements_keep_claims_covered(ledger, earlier);
        let reached = ledger_run(ledger, earlier);
        assert(ops[ops.len() - 1] is Settle);
        match ops.last() {
            LpOperation::Settle { holder } => {
                lemma_settle_keeps_solvency(reached, holder);
            },
            LpOperation::Burn { .. } => {},
        }
    }
}

} // verus!
