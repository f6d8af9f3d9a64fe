//! Host resolution off the event threads: the worker pool that runs the
//! blocking lookups, and the rule that turns a lookup's addresses into a
//! result.

use vstd::prelude::*;

verus! {

#[verifier::external_type_specification]
#[verifier::external_body]
pub struct ExThreadPool(threadpool::ThreadPool);

/// Relies on `Clone for threadpool::ThreadPool`: the clone is a second
/// handle on the same pool, so resolvers cloned from one share its workers.
pub assume_specification[ <threadpool::ThreadPool as Clone>::clone ](
    pool: &threadpool::ThreadPool,
) -> threadpool::ThreadPool;

/// One resolved address, as its numeric value.
#[derive(Debug, Clone, Copy, PartialEq, Eq, Structural)]
pub enum IpAddress {
    V4(u32),
    V6(u128),
}

/// The addresses that a host name resolved to, by family, each in the
/// order that the lookup returned them.
#[derive(Debug, Clone)]
pub struct HostAddrs {
    pub addrs_v4: Vec<u32>,
    pub addrs_v6: Vec<u128>,
}

/// Why a resolution gave no addresses.
#[derive(Debug, Clone, Copy, PartialEq, Eq, Structural)]
pub enum ResolveError {
    /// The lookup succeeded but found no address.
    AddrNotAvailable,
    /// The worker never reported back.
    Interrupted,
}

/// The IPv4 addresses among `s`, in order.
pub open spec fn v4_of(s: Seq<IpAddress>) -> Seq<u32>
    decreases s.len(),
{
    if s.len() == 0 {
        Seq::empty()
    } else {
        match s.last() {
            IpAddress::V4(a) => v4_of(s.drop_last()).push(a),
            IpAddress::V6(_) => v4_of(s.drop_last()),
        }
    }
}

/// The IPv6 addresses among `s`, in order.
pub open spec fn v6_of(s: Seq<IpAddress>) -> Seq<u128>
    decreases s.len(),
{
    if s.len() == 0 {
        Seq::empty()
    } else {
        match s.last() {
            IpAddress::V4(_) => v6_of(s.drop_last()),
            IpAddress::V6(a) => v6_of(s.drop_last()).push(a),
        }
    }
}

/// Splits the addresses of a lookup by family, keeping their order; a
/// lookup with no address is an error, never an empty success.
pub fn collect_addrs(addrs: &Vec<IpAddress>) -> (r: Result<HostAddrs, ResolveError>)
    ensures
        addrs@.len() == 0 <==> r is Err,
        r is Err ==> r == Err::<HostAddrs, ResolveError>(ResolveError::AddrNotAvailable),
        r matches Ok(h) ==> h.addrs_v4@ == v4_of(addrs@) && h.addrs_v6@ == v6_of(addrs@),
{
    let mut addrs_v4: Vec<u32> = Vec::new();
    let mut addrs_v6: Vec<u128> = Vec::new();
    let mut i: usize = 0;
    while i < addrs.len()
        invariant
            i <= addrs@.len(),
            addrs_v4@ == v4_of(addrs@.subrange(0, i as int)),
            addrs_v6@ == v6_of(addrs@.subrange(0, i as int)),
        decreases addrs.len() - i,
    {
        assert(addrs@.subrange(0, i + 1).drop_last() =~= addrs@.subrange(0, i as int));
        match addrs[i] {
            IpAddress::V4(a) => addrs_v4.push(a),
            IpAddress::V6(a) => addrs_v6.push(a),
        }
        i = i + 1;
    }
    assert(addrs@.subrange(0, i as int) =~= addrs@);
    if i == 0 {
        return Err(ResolveError::AddrNotAvailable);
    }
    Ok(HostAddrs { addrs_v4, addrs_v6 })
}

/// A lookup's addresses are all kept: each lands in the list of its family,
/// and the two lists together are as long as the lookup.
pub proof fn resolution_law(s: Seq<IpAddress>)
    ensures
        v4_of(s).len() + v6_of(s).len() == s.len(),
        forall|i: int|
            0 <= i < s.len() ==> match #[trigger] s[i] {
                IpAddress::V4(a) => v4_of(s).contains(a),
                IpAddress::V6(a) => v6_of(s).contains(a),
            },
    decreases s.len(),
{
    if s.len() > 0 {
        let t = s.drop_last();
        resolution_law(t);
        assert forall|i: int| 0 <= i < s.len() implies match #[trigger] s[i] {
            IpAddress::V4(a) => v4_of(s).contains(a),
            IpAddress::V6(a) => v6_of(s).contains(a),
        } by {
            if i < s.len() - 1 {
                assert(s[i] == t[i]);
                match s[i] {
                    IpAddress::V4(a) => {
                        let j = choose|j: int| 0 <= j < v4_of(t).len() && v4_of(t)[j] == a;
                        assert(v4_of(s)[j] == a);
                    },
                    IpAddress::V6(a) => {
                        let j = choose|j: int| 0 <= j < v6_of(t).len() && v6_of(t)[j] == a;
                        assert(v6_of(s)[j] == a);
                    },
                }
            } else {
                match s[i] {
                    IpAddress::V4(a) => {
                        assert(v4_of(s)[v4_of(s).len() - 1] == a);
                    },
                    IpAddress::V6(a) => {
                        assert(v6_of(s)[v6_of(s).len() - 1] == a);
                    },
                }
            }
        }
    }
}

/// Relies on threadpool::ThreadPool::new, which starts a pool of
/// `threads` workers and panics on zero.
#[verifier::external_body]
fn start_pool(threads: usize) -> (r: threadpool::ThreadPool)
    requires
        threads > 0,
{
    threadpool::ThreadPool::new(threads)
}

/// Resolves host names on a pool of worker threads, so that a blocking
/// lookup never holds up the caller's event loop.
#[derive(Clone)]
pub struct DnsResolver {
    pool: threadpool::ThreadPool,
    threads: usize,
}

impl DnsResolver {
    /// Pool size where the host's parallelism is unknown.
    pub const DEFAULT_THREADS: usize = 8;

    /// The number of workers in the pool.
    pub closed spec fn spec_threads(&self) -> nat {
        self.threads as nat
    }

    /// A resolver with a pool of `threads` workers.
    pub fn new(threads: usize) -> (r: Self)
        requires
            threads > 0,
        ensures
            r.spec_threads() == threads,
    {
        let pool = start_pool(threads);
        DnsResolver { pool, threads }
    }

    /// A resolver sized to the host: one worker per unit of parallelism
    /// that the host reports (at least one), or `DEFAULT_THREADS` where it
    /// reports none.
    pub fn with_parallelism(available: Option<usize>) -> (r: Self)
        ensures
            r.spec_threads() == match available {
                Some(n) => if n == 0 { 1 } else { n },
                None => Self::DEFAULT_THREADS,
            },
    {
        let threads: usize = match available {
            Some(n) => if n == 0 { 1 } else { n },
            None => Self::DEFAULT_THREADS,
        };
        Self::new(threads)
    }

    /// The number of workers in the pool.
    pub fn threads(&self) -> (r: usize)
        ensures
            r == self.spec_threads(),
    {
        self.threads
    }

    /// The worker pool, on which lookups are submitted.
    pub fn pool(&self) -> &threadpool::ThreadPool {
        &self.pool
    }
}

} // verus!
