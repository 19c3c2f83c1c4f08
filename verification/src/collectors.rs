//! The concrete collectors: handles owning what is needed to (re)open one
//! external event source. Opening the source and reading from it is I/O and
//! lives outside the library; the handles themselves, what they are built
//! from, and the events they produce are modelled here.

use vstd::prelude::*;

use std::sync::Arc;

verus! {

/// A new-block event: the block's hash and number.
#[derive(Clone, Debug)]
pub struct NewBlock {
    /// Block hash, as 32 bytes.
    pub hash: Vec<u8>,
    /// Block number.
    pub number: u64,
}

/// A collector that listens for new blocks and produces a stream of
/// [`NewBlock`] events through its subscription provider.
pub struct BlockCollector<M> {
    provider: Arc<M>,
}

impl<M> BlockCollector<M> {
    /// The provider the collector subscribes through.
    pub closed spec fn provider(&self) -> Arc<M> {
        self.provider
    }

    /// A collector subscribing through the given provider.
    pub fn new(provider: Arc<M>) -> (r: BlockCollector<M>)
        ensures
            r.provider() == provider,
    {
        BlockCollector { provider }
    }

    /// The provider, for opening the subscription.
    pub fn provider_handle(&self) -> (r: &Arc<M>)
        ensures
            *r == self.provider(),
    {
        &self.provider
    }
}

/// A collector that listens for new pending transactions in the mempool.
pub struct MempoolCollector<M> {
    provider: Arc<M>,
}

impl<M> MempoolCollector<M> {
    /// The provider the collector subscribes through.
    pub closed spec fn provider(&self) -> Arc<M> {
        self.provider
    }

    /// A collector subscribing through the given provider.
    pub fn new(provider: Arc<M>) -> (r: MempoolCollector<M>)
        ensures
            r.provider() == provider,
    {
        MempoolCollector { provider }
    }

    /// The provider, for opening the subscription.
    pub fn provider_handle(&self) -> (r: &Arc<M>)
        ensures
            *r == self.provider(),
    {
        &self.provider
    }
}

/// A collector that listens for new blockchain event logs matching one
/// filter.
pub struct LogCollector<M, F> {
    provider: Arc<M>,
    filter: F,
}

impl<M, F> LogCollector<M, F> {
    /// The provider the collector subscribes through.
    pub closed spec fn provider(&self) -> Arc<M> {
        self.provider
    }

    /// The filter its subscription matches.
    pub closed spec fn filter(&self) -> F {
        self.filter
    }

    /// A collector subscribing through the given provider, for logs matching
    /// the given filter.
    pub fn new(provider: Arc<M>, filter: F) -> (r: LogCollector<M, F>)
        ensures
            r.provider() == provider,
            r.filter() == filter,
    {
        LogCollector { provider, filter }
    }

    /// The provider, for opening the subscription.
    pub fn provider_handle(&self) -> (r: &Arc<M>)
        ensures
            *r == self.provider(),
    {
        &self.provider
    }

    /// The filter, for opening the subscription.
    pub fn filter_handle(&self) -> (r: &F)
        ensures
            *r == self.filter(),
    {
        &self.filter
    }
}

/// The streaming ingestion collector: subscribes to the MEV-share
/// server-sent-events endpoint and produces [`crate::mevshare::Event`]s. Its
/// frame parsing lives in [`crate::frames`] and [`crate::mevshare`], and its
/// reconnect policy in [`crate::session`]; the surrounding I/O loop only
/// follows the commands of a [`crate::session::StreamSession`].
pub struct MevShareCollector {
    mevshare_sse_url: String,
}

impl MevShareCollector {
    /// The endpoint the collector subscribes to.
    pub closed spec fn url(&self) -> Seq<char> {
        self.mevshare_sse_url@
    }

    /// A collector subscribing to the given endpoint.
    pub fn new(mevshare_sse_url: String) -> (r: MevShareCollector)
        ensures
            r.url() == mevshare_sse_url@,
    {
        MevShareCollector { mevshare_sse_url }
    }

    /// The endpoint the collector subscribes to.
    pub fn endpoint(&self) -> (r: &String)
        ensures
            r@ == self.url(),
    {
        &self.mevshare_sse_url
    }
}

} // verus!
