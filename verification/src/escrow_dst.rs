//! The destination-side escrow: the counter-asset holder.
//!
//! The resolver funds one commitment here with the taking asset, tops it up
//! with a safety deposit, and the maker's side is paid out when the secret
//! is revealed inside the withdrawal windows.  Funding rejects any
//! commitment whose destination cancellation deadline does not strictly
//! precede the source one, so a resolver who already delivered is never
//! left exposed.

use vstd::prelude::*;

verus! {

use vstd::hash_map::StringHashMap;
use crate::EscrowError;
use crate::Payout;
use crate::PayoutV;
use crate::immutables::{Immutables, ImmutablesV, spec_immutables_hash};
use crate::timelock::{spec_after, spec_before, _only_after, _only_before};
use crate::secret::{spec_validate_secret, validate_secret};
use crate::hashing::{spec_hex_str_bytes, hex_decode};
use crate::codec::{spec_parse_immutables, parse_immutables};

/// One funded resolver commitment on the destination ledger.
#[derive(Clone, Debug)]
pub struct ResolverOrder {
    /// The commitment this entry holds the counter-asset for.
    pub immutables: Immutables,
    /// The safety deposit currently held; zero until the deposit call.
    pub safty_deposit: u128,
}

/// The mathematical image of a [`ResolverOrder`].
pub ghost struct ResolverOrderV {
    pub immutables: ImmutablesV,
    pub safty_deposit: u128,
}

impl View for ResolverOrder {
    type V = ResolverOrderV;

    open spec fn view(&self) -> ResolverOrderV {
        ResolverOrderV { immutables: self.immutables@, safty_deposit: self.safty_deposit }
    }
}

/// The order book of the destination escrow.
pub struct EscrowDst {
    /// Funded commitments, keyed by the commitment's content hash; an entry
    /// is removed on withdrawal or cancellation.
    pub resolvers_orders: StringHashMap<ResolverOrder>,
}

impl EscrowDst {
    /// The commitment book, at the level of record images.
    pub open spec fn spec_orders(self) -> Map<Seq<char>, ResolverOrderV> {
        self.resolvers_orders@.map_values(|o: ResolverOrder| o@)
    }
}

impl Default for EscrowDst {
    /// An escrow holding no commitments.
    fn default() -> (r: Self)
        ensures
            r.spec_orders() == Map::<Seq<char>, ResolverOrderV>::empty(),
    {
        let r = EscrowDst { resolvers_orders: StringHashMap::new() };
        proof {
            assert(r.spec_orders() =~= Map::<Seq<char>, ResolverOrderV>::empty());
        }
        r
    }
}

/// The commitment a destination funding payload carries, when it is
/// well-formed hex around a well-formed record.
pub open spec fn spec_decode_immutables(msg: Seq<char>) -> Option<ImmutablesV> {
    match spec_hex_str_bytes(msg) {
        Some(b) => spec_parse_immutables(b),
        None => None,
    }
}

/// The admission check for a destination funding transfer.  On success the
/// refund is the excess of the transferred amount over the commitment's
/// making amount.
pub open spec fn spec_dst_fund_check(msg: Seq<char>, sender: Seq<char>, amount: u128) -> Result<
    ImmutablesV,
    EscrowError,
> {
    match spec_hex_str_bytes(msg) {
        None => Err(EscrowError::InvalidHex),
        Some(b) => match spec_parse_immutables(b) {
            None => Err(EscrowError::MalformedPayload),
            Some(imm) => {
                if amount < imm.taking_amount {
                    Err(EscrowError::InsufficientAmount)
                } else if sender != imm.taker {
                    Err(EscrowError::WrongSender)
                } else if imm.timelock.dst_cancellation >= imm.timelock.src_cancellation {
                    Err(EscrowError::CancellationOrder)
                } else if amount < imm.making_amount {
                    Err(EscrowError::ArithmeticOverflow)
                } else {
                    Ok(imm)
                }
            },
        },
    }
}

/// The withdrawal check for one commitment.  `private` demands the taker
/// and the private window; otherwise anyone inside the public window.  On
/// success the taking asset goes to the maker and the stored safety deposit
/// back to the caller.
pub open spec fn spec_dst_withdraw_check(
    orders: Map<Seq<char>, ResolverOrderV>,
    imm: ImmutablesV,
    secret: Seq<char>,
    caller: Seq<char>,
    now: u64,
    private: bool,
) -> Result<PayoutV, EscrowError> {
    if private && caller != imm.taker {
        Err(EscrowError::NotTaker)
    } else if !spec_after(
        now,
        if private {
            imm.timelock.dst_withdrawal
        } else {
            imm.timelock.dst_public_withdrawal
        },
    ) {
        Err(EscrowError::BeforeWindow)
    } else if !spec_before(now, imm.timelock.dst_cancellation) {
        Err(EscrowError::AfterWindow)
    } else if !spec_validate_secret(secret, imm.hashlock) {
        Err(EscrowError::InvalidSecret)
    } else if !orders.contains_key(spec_immutables_hash(imm)) {
        Err(EscrowError::OrderNotFound)
    } else {
        Ok(
            PayoutV {
                token: imm.taking_token,
                receiver: imm.maker,
                amount: imm.taking_amount,
                deposit_receiver: caller,
                deposit_amount: orders[spec_immutables_hash(imm)].safty_deposit,
            },
        )
    }
}

/// The cancellation check: the taker, after the destination cancellation
/// deadline; the taking asset and the stored safety deposit both return to
/// the caller.
pub open spec fn spec_dst_cancel_check(
    orders: Map<Seq<char>, ResolverOrderV>,
    imm: ImmutablesV,
    caller: Seq<char>,
    now: u64,
) -> Result<PayoutV, EscrowError> {
    if caller != imm.taker {
        Err(EscrowError::NotTaker)
    } else if !spec_after(now, imm.timelock.dst_cancellation) {
        Err(EscrowError::BeforeWindow)
    } else if !orders.contains_key(spec_immutables_hash(imm)) {
        Err(EscrowError::OrderNotFound)
    } else {
        Ok(
            PayoutV {
                token: imm.taking_token,
                receiver: caller,
                amount: imm.taking_amount,
                deposit_receiver: caller,
                deposit_amount: orders[spec_immutables_hash(imm)].safty_deposit,
            },
        )
    }
}

impl EscrowDst {
    /// Funding hook for the destination escrow: called when the taker's
    /// asset arrives carrying a hex-encoded commitment record.  On success
    /// the commitment is stored with a zero safety deposit and the excess
    /// over the making amount is returned for refunding; on rejection the
    /// whole call fails and nothing is stored.
    #[verifier::rlimit(50)]
    pub fn ft_on_transfer(&mut self, sender_id: String, amount: u128, msg: String) -> (r: Result<
        u128,
        EscrowError,
    >)
        ensures
            (match spec_dst_fund_check(msg@, sender_id@, amount) {
                Ok(imm) => r == Ok::<u128, EscrowError>((amount - imm.making_amount) as u128)
                    && final(self).spec_orders() == old(self).spec_orders().insert(
                    spec_immutables_hash(imm),
                    ResolverOrderV { immutables: imm, safty_deposit: 0 },
                ),
                Err(e) => r == Err::<u128, EscrowError>(e) && final(self).spec_orders() == old(
                    self,
                ).spec_orders(),
            }),
    {
        let bytes = match hex_decode(msg.as_str().as_bytes()) {
            Some(b) => b,
            None => {
                return Err(EscrowError::InvalidHex);
            },
        };
        let immutables = match parse_immutables(bytes.as_slice()) {
            Some(v) => v,
            None => {
                return Err(EscrowError::MalformedPayload);
            },
        };
        if amount < immutables.taking_amount {
            return Err(EscrowError::InsufficientAmount);
        }
        if sender_id != immutables.taker {
            return Err(EscrowError::WrongSender);
        }
        if immutables.timelock.dst_cancellation >= immutables.timelock.src_cancellation {
            return Err(EscrowError::CancellationOrder);
        }
        if amount < immutables.making_amount {
            return Err(EscrowError::ArithmeticOverflow);
        }
        let unused = amount - immutables.making_amount;
        let key = immutables.hash();
        let ghost imm_v = immutables@;
        self.resolvers_orders.insert(key, ResolverOrder { immutables, safty_deposit: 0 });
        proof {
            assert(final(self).spec_orders() =~= old(self).spec_orders().insert(
                spec_immutables_hash(imm_v),
                ResolverOrderV { immutables: imm_v, safty_deposit: 0 },
            ));
        }
        Ok(unused)
    }

    /// Deposits the safety amount for a stored commitment.  Anyone may do
    /// it, but only before the private withdrawal deadline, and only with
    /// exactly the committed deposit.  Depositing against an unknown
    /// commitment is accepted and changes nothing: the deposit is simply
    /// not recorded, a caller-absorbed risk.
    pub fn deposit_safty_amount(&mut self, immutables: Immutables, now: u64, attached_deposit: u128) -> (r:
        Result<(), EscrowError>)
        ensures
            !spec_before(now, immutables@.timelock.dst_withdrawal) ==> r == Err::<
                (),
                EscrowError,
            >(EscrowError::AfterWindow) && final(self).spec_orders() == old(self).spec_orders(),
            spec_before(now, immutables@.timelock.dst_withdrawal) && attached_deposit
                != immutables@.dst_safty_deposit ==> r == Err::<(), EscrowError>(
                EscrowError::InvalidSafetyDeposit,
            ) && final(self).spec_orders() == old(self).spec_orders(),
            spec_before(now, immutables@.timelock.dst_withdrawal) && attached_deposit
                == immutables@.dst_safty_deposit ==> r == Ok::<(), EscrowError>(()) && (if old(
                self,
            ).spec_orders().contains_key(spec_immutables_hash(immutables@)) {
                final(self).spec_orders() == old(self).spec_orders().insert(
                    spec_immutables_hash(immutables@),
                    ResolverOrderV {
                        immutables: old(self).spec_orders()[spec_immutables_hash(
                            immutables@,
                        )].immutables,
                        safty_deposit: attached_deposit,
                    },
                )
            } else {
                final(self).spec_orders() == old(self).spec_orders()
            }),
    {
        if !_only_before(now, immutables.timelock.dst_withdrawal) {
            return Err(EscrowError::AfterWindow);
        }
        if attached_deposit != immutables.dst_safty_deposit {
            return Err(EscrowError::InvalidSafetyDeposit);
        }
        let key = immutables.hash();
        let updated = match self.resolvers_orders.get(key.as_str()) {
            Some(o) => ResolverOrder {
                immutables: o.immutables.duplicate(),
                safty_deposit: attached_deposit,
            },
            None => {
                return Ok(());
            },
        };
        let ghost uv = updated@;
        self.resolvers_orders.insert(key, updated);
        proof {
            assert(final(self).spec_orders() =~= old(self).spec_orders().insert(
                spec_immutables_hash(immutables@),
                uv,
            ));
        }
        Ok(())
    }

    /// Private withdrawal by the taker: sends the taking asset to the maker
    /// and the stored safety deposit to the caller, and removes the
    /// commitment.
    pub fn withdraw(
        &mut self,
        secret: String,
        immutables: Immutables,
        caller: String,
        now: u64,
    ) -> (r: Result<Payout, EscrowError>)
        ensures
            crate::spec_payout_result_view(r) == spec_dst_withdraw_check(
                old(self).spec_orders(),
                immutables@,
                secret@,
                caller@,
                now,
                true,
            ),
            r is Ok ==> final(self).spec_orders() == old(self).spec_orders().remove(
                spec_immutables_hash(immutables@),
            ),
            r is Err ==> final(self).spec_orders() == old(self).spec_orders(),
    {
        if caller != immutables.taker {
            return Err(EscrowError::NotTaker);
        }
        if !_only_after(now, immutables.timelock.dst_withdrawal) {
            return Err(EscrowError::BeforeWindow);
        }
        if !_only_before(now, immutables.timelock.dst_cancellation) {
            return Err(EscrowError::AfterWindow);
        }
        if !validate_secret(secret, immutables.hashlock.clone()) {
            return Err(EscrowError::InvalidSecret);
        }
        let key = immutables.hash();
        let deposit = match self.resolvers_orders.get(key.as_str()) {
            Some(o) => o.safty_deposit,
            None => {
                return Err(EscrowError::OrderNotFound);
            },
        };
        self.resolvers_orders.remove(key.as_str());
        proof {
            assert(final(self).spec_orders() =~= old(self).spec_orders().remove(
                spec_immutables_hash(immutables@),
            ));
        }
        Ok(
            Payout {
                token: immutables.taking_token,
                receiver: immutables.maker,
                amount: immutables.taking_amount,
                deposit_receiver: caller,
                deposit_amount: deposit,
            },
        )
    }

    /// Public withdrawal: anyone inside the public window with the right
    /// secret; the asset still goes to the maker, the deposit to the caller.
    pub fn public_withdraw(
        &mut self,
        secret: String,
        immutables: Immutables,
        caller: String,
        now: u64,
    ) -> (r: Result<Payout, EscrowError>)
        ensures
            crate::spec_payout_result_view(r) == spec_dst_withdraw_check(
                old(self).spec_orders(),
                immutables@,
                secret@,
                caller@,
                now,
                false,
            ),
            r is Ok ==> final(self).spec_orders() == old(self).spec_orders().remove(
                spec_immutables_hash(immutables@),
            ),
            r is Err ==> final(self).spec_orders() == old(self).spec_orders(),
    {
        if !_only_after(now, immutables.timelock.dst_public_withdrawal) {
            return Err(EscrowError::BeforeWindow);
        }
        if !_only_before(now, immutables.timelock.dst_cancellation) {
            return Err(EscrowError::AfterWindow);
        }
        if !validate_secret(secret, immutables.hashlock.clone()) {
            return Err(EscrowError::InvalidSecret);
        }
        let key = immutables.hash();
        let deposit = match self.resolvers_orders.get(key.as_str()) {
            Some(o) => o.safty_deposit,
            None => {
                return Err(EscrowError::OrderNotFound);
            },
        };
        self.resolvers_orders.remove(key.as_str());
        proof {
            assert(final(self).spec_orders() =~= old(self).spec_orders().remove(
                spec_immutables_hash(immutables@),
            ));
        }
        Ok(
            Payout {
                token: immutables.taking_token,
                receiver: immutables.maker,
                amount: immutables.taking_amount,
                deposit_receiver: caller,
                deposit_amount: deposit,
            },
        )
    }

    /// Cancellation by the taker after the destination cancellation
    /// deadline: the taking asset and the stored deposit both return to the
    /// caller, and the commitment is removed.
    pub fn cancel(&mut self, immutables: Immutables, caller: String, now: u64) -> (r: Result<
        Payout,
        EscrowError,
    >)
        ensures
            crate::spec_payout_result_view(r) == spec_dst_cancel_check(
                old(self).spec_orders(),
                immutables@,
                caller@,
                now,
            ),
            r is Ok ==> final(self).spec_orders() == old(self).spec_orders().remove(
                spec_immutables_hash(immutables@),
            ),
            r is Err ==> final(self).spec_orders() == old(self).spec_orders(),
    {
        if caller != immutables.taker {
            return Err(EscrowError::NotTaker);
        }
        if !_only_after(now, immutables.timelock.dst_cancellation) {
            return Err(EscrowError::BeforeWindow);
        }
        let key = immutables.hash();
        let deposit = match self.resolvers_orders.get(key.as_str()) {
            Some(o) => o.safty_deposit,
            None => {
                return Err(EscrowError::OrderNotFound);
            },
        };
        self.resolvers_orders.remove(key.as_str());
        proof {
            assert(final(self).spec_orders() =~= old(self).spec_orders().remove(
                spec_immutables_hash(immutables@),
            ));
        }
        Ok(
            Payout {
                token: immutables.taking_token,
                receiver: caller.clone(),
                amount: immutables.taking_amount,
                deposit_receiver: caller,
                deposit_amount: deposit,
            },
        )
    }
}

} // verus!
