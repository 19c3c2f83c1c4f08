//! The concrete executors: handles owning the transport and signer needed to
//! submit one kind of action. Sending is I/O and lives outside the library;
//! the handles, what they are built from, and the gas-bid arithmetic of the
//! mempool executor are modelled here.

use vstd::prelude::*;

use std::sync::Arc;
use vstd::arithmetic::div_mod::lemma_hoist_over_denominator;

verus! {

/// An executor that sends transaction bundles to the Flashbots relay,
/// authenticating each request with its signer.
pub struct FlashbotsExecutor<P, AuthSigner> {
    mev_provider: Arc<P>,
    auth_signer: AuthSigner,
}

impl<P, AuthSigner> FlashbotsExecutor<P, AuthSigner> {
    /// The relay provider requests go through.
    pub closed spec fn provider(&self) -> Arc<P> {
        self.mev_provider
    }

    /// The signer that authenticates requests.
    pub closed spec fn signer(&self) -> AuthSigner {
        self.auth_signer
    }

    /// An executor submitting through the given relay provider, signing with
    /// the given signer.
    pub fn new(mev_provider: Arc<P>, auth_signer: AuthSigner) -> (r: FlashbotsExecutor<
        P,
        AuthSigner,
    >)
        ensures
            r.provider() == mev_provider,
            r.signer() == auth_signer,
    {
        FlashbotsExecutor { mev_provider, auth_signer }
    }

    /// The relay provider, for sending requests.
    pub fn provider_handle(&self) -> (r: &Arc<P>)
        ensures
            *r == self.provider(),
    {
        &self.mev_provider
    }

    /// The signer, for authenticating requests.
    pub fn signer_handle(&self) -> (r: &AuthSigner)
        ensures
            *r == self.signer(),
    {
        &self.auth_signer
    }
}

/// An executor that sends single private fast transactions to the Flashbots
/// relay.
pub struct FlashbotsSingleExecutor<P, AuthSigner> {
    mev_provider: Arc<P>,
    auth_signer: AuthSigner,
}

impl<P, AuthSigner> FlashbotsSingleExecutor<P, AuthSigner> {
    /// The relay provider requests go through.
    pub closed spec fn provider(&self) -> Arc<P> {
        self.mev_provider
    }

    /// The signer that authenticates requests.
    pub closed spec fn signer(&self) -> AuthSigner {
        self.auth_signer
    }

    /// An executor submitting through the given relay provider, signing with
    /// the given signer.
    pub fn new(mev_provider: Arc<P>, auth_signer: AuthSigner) -> (r: FlashbotsSingleExecutor<
        P,
        AuthSigner,
    >)
        ensures
            r.provider() == mev_provider,
            r.signer() == auth_signer,
    {
        FlashbotsSingleExecutor { mev_provider, auth_signer }
    }

    /// The relay provider, for sending requests.
    pub fn provider_handle(&self) -> (r: &Arc<P>)
        ensures
            *r == self.provider(),
    {
        &self.mev_provider
    }

    /// The signer, for authenticating requests.
    pub fn signer_handle(&self) -> (r: &AuthSigner)
        ensures
            *r == self.signer(),
    {
        &self.auth_signer
    }
}

/// An executor that sends bundles to the MEV-share matchmaker.
pub struct MevshareExecutor<P, S> {
    mev_provider: Arc<P>,
    auth_signer: S,
}

impl<P, S> MevshareExecutor<P, S> {
    /// The matchmaker provider requests go through.
    pub closed spec fn provider(&self) -> Arc<P> {
        self.mev_provider
    }

    /// The signer that authenticates requests.
    pub closed spec fn signer(&self) -> S {
        self.auth_signer
    }

    /// An executor submitting through the given matchmaker provider, signing
    /// with the given signer.
    pub fn new(mev_provider: Arc<P>, auth_signer: S) -> (r: MevshareExecutor<P, S>)
        ensures
            r.provider() == mev_provider,
            r.signer() == auth_signer,
    {
        MevshareExecutor { mev_provider, auth_signer }
    }

    /// The matchmaker provider, for sending requests.
    pub fn provider_handle(&self) -> (r: &Arc<P>)
        ensures
            *r == self.provider(),
    {
        &self.mev_provider
    }

    /// The signer, for authenticating requests.
    pub fn signer_handle(&self) -> (r: &S)
        ensures
            *r == self.signer(),
    {
        &self.auth_signer
    }
}

/// An executor that sends transactions to the public mempool.
pub struct MempoolExecutor<M> {
    client: Arc<M>,
}

impl<M> MempoolExecutor<M> {
    /// The client transactions are sent through.
    pub closed spec fn client(&self) -> Arc<M> {
        self.client
    }

    /// An executor sending through the given client.
    pub fn new(client: Arc<M>) -> (r: MempoolExecutor<M>)
        ensures
            r.client() == client,
    {
        MempoolExecutor { client }
    }

    /// The client, for sending transactions.
    pub fn client_handle(&self) -> (r: &Arc<M>)
        ensures
            *r == self.client(),
    {
        &self.client
    }
}

/// Information about the gas bid for a transaction.
#[derive(Clone, Copy, Debug)]
pub struct GasBidInfo {
    /// Total profit expected from the opportunity.
    pub total_profit: u128,
    /// Percentage of the profit to spend on gas.
    pub bid_percentage: u64,
}

/// The gas price a bid corresponds to: the break-even gas price — all profit
/// going to gas — scaled down to the bid percentage, rounding down at each of
/// the two divisions.
pub open spec fn spec_bid_gas_price(total_profit: u128, gas_usage: u128, bid_percentage: u64) -> int {
    (total_profit as int / gas_usage as int) * bid_percentage / 100
}

/// The gas price to bid when a transaction's expected profit and gas usage
/// are known: the break-even price scaled to the bid percentage. Returns
/// `None` exactly when the scaled price does not fit the gas-price range.
pub fn bid_gas_price(total_profit: u128, gas_usage: u128, bid_percentage: u64) -> (r: Option<u128>)
    requires
        gas_usage > 0,
    ensures
        r matches Some(v) ==> v == spec_bid_gas_price(total_profit, gas_usage, bid_percentage),
        r is None <==> spec_bid_gas_price(total_profit, gas_usage, bid_percentage) > u128::MAX,
{
    let breakeven = total_profit / gas_usage;
    let q = breakeven / 100;
    let rm = breakeven % 100;
    let pct = bid_percentage as u128;
    proof {
        assert(rm * pct <= 99 * pct) by (nonlinear_arith)
            requires
                rm <= 99,
                pct >= 0,
        ;
        assert(99 * pct <= u128::MAX) by (nonlinear_arith)
            requires
                pct <= u64::MAX,
        ;
    }
    let t = (rm * pct) / 100;
    proof {
        let b = breakeven as int;
        let p = pct as int;
        let qq = q as int;
        let rr = rm as int;
        assert(b * p == (qq * p) * 100 + rr * p) by (nonlinear_arith)
            requires
                b == 100 * qq + rr,
        ;
        if p > 0 {
            lemma_hoist_over_denominator(rr * p, qq * p, 100);
            assert(b * p / 100 == qq * p + rr * p / 100);
        } else {
            assert(p == 0);
            assert(b * p / 100 == qq * p + rr * p / 100) by (nonlinear_arith)
                requires
                    p == 0,
            ;
        }
        assert(spec_bid_gas_price(total_profit, gas_usage, bid_percentage) == qq * p + rr * p
            / 100);
    }
    match q.checked_mul(pct) {
        None => {
            proof {
                assert(q as int * pct as int + (rm as int * pct as int) / 100 > u128::MAX);
            }
            None
        },
        Some(qp) => {
            let r = qp.checked_add(t);
            r
        },
    }
}

} // verus!
