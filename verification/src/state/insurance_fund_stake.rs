//! An authority's stake in a bank's insurance fund.
//!
//! A stake is a count of shares at a decimal scale, a cost basis, and at
//! most one withdrawal request held in escrow. The shares of a pool may be
//! rebased to another scale over its life; a stake follows by rescaling
//! everything it holds that is measured at that scale.

use crate::error::{committed, ClearingHouseResult, ErrorCode};
use crate::math::safe_math::{fit_u128, safe_add_u128};
use anchor_lang::prelude::Pubkey;
use vstd::arithmetic::div_mod::lemma_div_is_ordered;
use vstd::arithmetic::power::{lemma_pow_increases, lemma_pow_positive, pow};
use vstd::prelude::*;

verus! {

/// `anchor_lang`'s account key: 32 bytes that this library stores and hands
/// back and never looks into.
#[verifier::external_type_specification]
#[verifier::external_body]
pub struct ExPubkey(Pubkey);

#[derive(Clone, Copy, Debug, PartialEq, Eq)]
pub struct InsuranceFundStake {
    pub authority: Pubkey,
    pub bank_index: u64,
    pub lp_shares: u128,
    /// Exponent of the decimal scale that `lp_shares` is counted at.
    pub expo: u128,
    pub last_valid_ts: i64,
    /// The withdrawal request in escrow; all three are zero when there is
    /// none.
    pub last_withdraw_request_shares: u128,
    pub last_withdraw_request_value: u64,
    pub last_withdraw_request_ts: i64,
    /// What the stake was paid for, less what was withdrawn. Losses can
    /// take it below zero.
    pub cost_basis: i128,
}

/// The factor between two scales that are `expo_diff` decimal places apart.
pub open spec fn rebase_factor(expo_diff: nat) -> int {
    pow(10, expo_diff)
}

impl InsuranceFundStake {
    /// The escrowed request asks for no more shares than the stake has.
    pub open spec fn wf(self) -> bool {
        self.last_withdraw_request_shares <= self.lp_shares
    }

    /// No withdrawal request is in escrow.
    pub open spec fn escrow_is_empty(self) -> bool {
        &&& self.last_withdraw_request_shares == 0
        &&& self.last_withdraw_request_value == 0
        &&& self.last_withdraw_request_ts == 0
    }

    /// The stake with its escrow emptied.
    pub open spec fn with_empty_escrow(self) -> Self {
        InsuranceFundStake {
            last_withdraw_request_shares: 0,
            last_withdraw_request_value: 0,
            last_withdraw_request_ts: 0,
            ..self
        }
    }

    /// The stake after `n_shares` bought for `amount` are added at time
    /// `now`.
    pub open spec fn after_stake(self, n_shares: u128, amount: u64, now: i64) -> Result<
        Self,
        ErrorCode,
    > {
        if self.lp_shares + n_shares > u128::MAX || self.cost_basis + amount > i128::MAX {
            Err(ErrorCode::ArithmeticError)
        } else {
            Ok(
                InsuranceFundStake {
                    lp_shares: (self.lp_shares + n_shares) as u128,
                    cost_basis: (self.cost_basis + amount) as i128,
                    last_valid_ts: now,
                    ..self
                },
            )
        }
    }

    /// The stake after a request to withdraw `n_shares`, worth `value`, is
    /// put in escrow at time `now`, in place of any earlier request. More
    /// shares than the stake has are insufficient shares.
    pub open spec fn after_withdraw_request(self, n_shares: u128, value: u64, now: i64) -> Result<
        Self,
        ErrorCode,
    > {
        if n_shares > self.lp_shares {
            Err(ErrorCode::InsufficientShares)
        } else {
            Ok(
                InsuranceFundStake {
                    last_withdraw_request_shares: n_shares,
                    last_withdraw_request_value: value,
                    last_withdraw_request_ts: now,
                    ..self
                },
            )
        }
    }

    /// The stake after the request in escrow is fulfilled at time `now`:
    /// the escrowed shares leave the stake, the escrowed value leaves the
    /// cost basis, and the escrow is emptied.
    pub open spec fn after_unstake(self, now: i64) -> Result<Self, ErrorCode> {
        if self.last_withdraw_request_shares > self.lp_shares {
            Err(ErrorCode::InsufficientShares)
        } else if self.cost_basis - self.last_withdraw_request_value < i128::MIN {
            Err(ErrorCode::ArithmeticError)
        } else {
            Ok(
                InsuranceFundStake {
                    lp_shares: (self.lp_shares - self.last_withdraw_request_shares) as u128,
                    cost_basis: (self.cost_basis - self.last_withdraw_request_value) as i128,
                    last_valid_ts: now,
                    ..self.with_empty_escrow()
                },
            )
        }
    }

    /// The stake brought to the scale of exponent `new_expo`.
    ///
    /// The shares, the escrowed shares and the escrowed value are rescaled
    /// together, by the factor between the two scales: divided by it and
    /// rounded down where the exponent rises, multiplied by it where the
    /// exponent falls. A factor or a product out of range is an arithmetic
    /// failure.
    pub open spec fn after_rebase(self, new_expo: u128) -> Result<Self, ErrorCode> {
        if new_expo >= self.expo {
            let factor = rebase_factor((new_expo - self.expo) as nat);
            if factor > u128::MAX {
                Err(ErrorCode::ArithmeticError)
            } else {
                Ok(
                    InsuranceFundStake {
                        expo: new_expo,
                        lp_shares: ((self.lp_shares as int) / factor) as u128,
                        last_withdraw_request_shares: ((self.last_withdraw_request_shares as int)
                            / factor) as u128,
                        last_withdraw_request_value: ((self.last_withdraw_request_value as int)
                            / factor) as u64,
                        ..self
                    },
                )
            }
        } else {
            let factor = rebase_factor((self.expo - new_expo) as nat);
            if factor > u128::MAX || self.lp_shares * factor > u128::MAX
                || self.last_withdraw_request_shares * factor > u128::MAX
                || self.last_withdraw_request_value * factor > u64::MAX {
                Err(ErrorCode::ArithmeticError)
            } else {
                Ok(
                    InsuranceFundStake {
                        expo: new_expo,
                        lp_shares: (self.lp_shares * factor) as u128,
                        last_withdraw_request_shares: (self.last_withdraw_request_shares
                            * factor) as u128,
                        last_withdraw_request_value: (self.last_withdraw_request_value
                            * factor) as u64,
                        ..self
                    },
                )
            }
        }
    }

    /// A stake of no shares for `authority` in the bank at `bank_index`.
    pub fn new(authority: Pubkey, bank_index: u64, now: i64) -> (stake: Self)
        ensures
            stake == (InsuranceFundStake {
                authority,
                bank_index,
                lp_shares: 0,
                expo: 0,
                last_valid_ts: now,
                last_withdraw_request_shares: 0,
                last_withdraw_request_value: 0,
                last_withdraw_request_ts: 0,
                cost_basis: 0,
            }),
    {
        InsuranceFundStake {
            authority,
            bank_index,
            lp_shares: 0,
            expo: 0,
            last_valid_ts: now,
            last_withdraw_request_shares: 0,
            last_withdraw_request_value: 0,
            last_withdraw_request_ts: 0,
            cost_basis: 0,
        }
    }

    /// Adds `n_shares` bought for `amount`.
    pub fn stake(&mut self, n_shares: u128, amount: u64, now: i64) -> (res: ClearingHouseResult<()>)
        ensures
            committed(res, old(self).after_stake(n_shares, amount, now), *old(self), *final(self)),
            res is Ok && old(self).wf() ==> final(self).wf(),
    {
        let lp_shares = safe_add_u128(self.lp_shares, n_shares)?;
        let cost_basis = match self.cost_basis.checked_add_unsigned(amount as u128) {
            Some(v) => v,
            None => {
                return Err(ErrorCode::ArithmeticError);
            },
        };
        self.lp_shares = lp_shares;
        self.cost_basis = cost_basis;
        self.last_valid_ts = now;
        Ok(())
    }

    /// Puts a request to withdraw `n_shares`, worth `value`, in escrow.
    pub fn request_withdraw(&mut self, n_shares: u128, value: u64, now: i64) -> (res:
        ClearingHouseResult<()>)
        ensures
            committed(
                res,
                old(self).after_withdraw_request(n_shares, value, now),
                *old(self),
                *final(self),
            ),
            res is Ok ==> final(self).wf(),
    {
        if n_shares > self.lp_shares {
            return Err(ErrorCode::InsufficientShares);
        }
        self.last_withdraw_request_shares = n_shares;
        self.last_withdraw_request_value = value;
        self.last_withdraw_request_ts = now;
        Ok(())
    }

    /// Drops the request in escrow, if there is one. The shares stay.
    pub fn cancel_withdraw_request(&mut self)
        ensures
            *final(self) == old(self).with_empty_escrow(),
            final(self).escrow_is_empty(),
            final(self).wf(),
    {
        self.last_withdraw_request_shares = 0;
        self.last_withdraw_request_value = 0;
        self.last_withdraw_request_ts = 0;
    }

    /// Fulfils the request in escrow.
    pub fn unstake(&mut self, now: i64) -> (res: ClearingHouseResult<()>)
        ensures
            committed(res, old(self).after_unstake(now), *old(self), *final(self)),
            res is Ok ==> final(self).escrow_is_empty() && final(self).wf(),
    {
        if self.last_withdraw_request_shares > self.lp_shares {
            return Err(ErrorCode::InsufficientShares);
        }
        let cost_basis = match self.cost_basis.checked_sub_unsigned(
            self.last_withdraw_request_value as u128,
        ) {
            Some(v) => v,
            None => {
                return Err(ErrorCode::ArithmeticError);
            },
        };
        self.lp_shares = self.lp_shares - self.last_withdraw_request_shares;
        self.cost_basis = cost_basis;
        self.last_valid_ts = now;
        self.last_withdraw_request_shares = 0;
        self.last_withdraw_request_value = 0;
        self.last_withdraw_request_ts = 0;
        Ok(())
    }

    /// Brings the stake to the scale of exponent `new_expo`.
    pub fn rebase(&mut self, new_expo: u128) -> (res: ClearingHouseResult<()>)
        ensures
            committed(res, old(self).after_rebase(new_expo), *old(self), *final(self)),
            res is Ok && old(self).wf() ==> final(self).wf(),
    {
        if new_expo >= self.expo {
            proof {
                lemma_pow_positive(10, (new_expo - self.expo) as nat);
            }
            let factor = get_rebase_factor(new_expo - self.expo)?;
            proof {
                if self.wf() {
                    lemma_div_is_ordered(
                        self.last_withdraw_request_shares as int,
                        self.lp_shares as int,
                        factor as int,
                    );
                }
            }
            let value = self.last_withdraw_request_value as u128 / factor;
            assert(value <= u64::MAX) by (nonlinear_arith)
                requires
                    value == (self.last_withdraw_request_value as int) / (factor as int),
                    self.last_withdraw_request_value <= u64::MAX,
                    factor >= 1,
            ;
            self.lp_shares = self.lp_shares / factor;
            self.last_withdraw_request_shares = self.last_withdraw_request_shares / factor;
            self.last_withdraw_request_value = value as u64;
            self.expo = new_expo;
            Ok(())
        } else {
            proof {
                lemma_pow_positive(10, (self.expo - new_expo) as nat);
            }
            let factor = get_rebase_factor(self.expo - new_expo)?;
            let lp_shares = match self.lp_shares.checked_mul(factor) {
                Some(v) => v,
                None => {
                    return Err(ErrorCode::ArithmeticError);
                },
            };
            let request_shares = match self.last_withdraw_request_shares.checked_mul(factor) {
                Some(v) => v,
                None => {
                    return Err(ErrorCode::ArithmeticError);
                },
            };
            let request_value = match (self.last_withdraw_request_value as u128).checked_mul(
                factor,
            ) {
                Some(v) => v,
                None => {
                    return Err(ErrorCode::ArithmeticError);
                },
            };
            if request_value > u64::MAX as u128 {
                return Err(ErrorCode::ArithmeticError);
            }
            let ghost held: int = self.lp_shares as int;
            let ghost asked: int = self.last_withdraw_request_shares as int;
            assert(asked <= held ==> request_shares <= lp_shares) by (nonlinear_arith)
                requires
                    request_shares == asked * factor,
                    lp_shares == held * factor,
                    factor >= 0,
            ;
            self.lp_shares = lp_shares;
            self.last_withdraw_request_shares = request_shares;
            self.last_withdraw_request_value = request_value as u64;
            self.expo = new_expo;
            Ok(())
        }
    }
}

/// Ten to the power of `expo_diff`, where that fits.
pub fn get_rebase_factor(expo_diff: u128) -> (res: ClearingHouseResult<u128>)
    ensures
        res == fit_u128(rebase_factor(expo_diff as nat)),
{
    let mut factor: u128 = 1;
    let mut done: u128 = 0;
    proof {
        reveal(pow);
    }
    while done < expo_diff
        invariant
            done <= expo_diff,
            factor == pow(10, done as nat),
        decreases expo_diff - done,
    {
        proof {
            reveal(pow);
            assert(pow(10, (done + 1) as nat) == 10 * pow(10, done as nat));
            lemma_pow_increases(10, (done + 1) as nat, expo_diff as nat);
        }
        factor =
        match factor.checked_mul(10) {
            Some(v) => v,
            None => {
                return Err(ErrorCode::ArithmeticError);
            },
        };
        done = done + 1;
    }
    proof {
        lemma_pow_positive(10, expo_diff as nat);
    }
    Ok(factor)
}

/// Rebasing to a finer scale and back restores the stake exactly: nothing
/// that a stake holds is lost by moving between scales where the division
/// is exact.
pub proof fn lemma_rebase_round_trip(stake: InsuranceFundStake, finer_expo: u128)
    requires
        finer_expo <= stake.expo,
        stake.after_rebase(finer_expo) is Ok,
    ensures
        stake.after_rebase(finer_expo)->Ok_0.after_rebase(stake.expo) == Ok::<
            InsuranceFundStake,
            ErrorCode,
        >(stake),
{
    let finer = stake.after_rebase(finer_expo)->Ok_0;
    let factor = rebase_factor((stake.expo - finer_expo) as nat);
    let shares = stake.lp_shares as int;
    let asked = stake.last_withdraw_request_shares as int;
    let value = stake.last_withdraw_request_value as int;
    lemma_pow_positive(10, (stake.expo - finer_expo) as nat);
    if finer_expo < stake.expo {
        assert(finer.lp_shares == shares * factor);
        assert(finer.last_withdraw_request_shares == asked * factor);
        assert(finer.last_withdraw_request_value == value * factor);
        assert((shares * factor) / factor == shares && (asked * factor) / factor == asked && (value
            * factor) / factor == value) by (nonlinear_arith)
            requires
                factor > 0,
        ;
    } else {
        reveal(pow);
        assert(factor == 1);
        assert(shares / factor == shares && asked / factor == asked && value / factor == value)
            by (nonlinear_arith)
            requires
                factor == 1,
        ;
    }
}

} // verus!
