//! Browsing for services others have registered.
//!
//! A browser is non-terminal: once browsing, it stays browsing and yields
//! many results over its lifetime, until the caller destroys it.  The native
//! layer reports raw add/remove/resolve events during poll iterations; the
//! step function here turns each into the next state, the resolve request
//! the shell must issue (discovery is populated incrementally: an add is
//! reported with name, type and domain only, and the host, port, addresses
//! and TXT record follow once the per-instance resolve completes), and what
//! to deliver to the user callback.  A failed resolve is delivered as a
//! typed error naming the instance and never terminates the browse.

use vstd::prelude::*;

use crate::error::Error;
use crate::service_type::ServiceType;
use crate::txt_record::TxtRecord;

verus! {

/// Which address families of a resolved instance are reported.  The filter
/// affects only the addresses delivered, never which names are discovered.
#[derive(Debug, Copy, Clone, PartialEq, Eq, Structural)]
pub enum AddressFamily {
    V4,
    V6,
    Unspecified,
}

/// A resolved address, as the bits of an IPv4 or IPv6 address.
#[derive(Debug, Copy, Clone, PartialEq, Eq, Structural)]
pub enum IpAddress {
    V4(u32),
    V6(u128),
}

/// Whether the family filter admits an address.
pub open spec fn family_admits(family: AddressFamily, a: IpAddress) -> bool {
    match family {
        AddressFamily::V4 => a is V4,
        AddressFamily::V6 => a is V6,
        AddressFamily::Unspecified => true,
    }
}

/// The addresses the filter admits, in their reported order.
pub fn filter_addresses(addrs: Vec<IpAddress>, family: AddressFamily) -> (r: Vec<IpAddress>)
    ensures
        r@ == addrs@.filter(|a: IpAddress| family_admits(family, a)),
{
    let ghost pred = |a: IpAddress| family_admits(family, a);
    let mut out: Vec<IpAddress> = Vec::new();
    let n = addrs.len();
    let mut i: usize = 0;
    proof {
        assert(addrs@.take(0) =~= Seq::<IpAddress>::empty());
        Seq::<IpAddress>::empty().lemma_all_neg_filter_empty(pred);
    }
    while i < n
        invariant
            n == addrs@.len(),
            0 <= i <= n,
            pred == (|a: IpAddress| family_admits(family, a)),
            out@ == addrs@.take(i as int).filter(pred),
        decreases n - i,
    {
        let a = addrs[i];
        let keep = match family {
            AddressFamily::V4 => matches!(a, IpAddress::V4(_)),
            AddressFamily::V6 => matches!(a, IpAddress::V6(_)),
            AddressFamily::Unspecified => true,
        };
        if keep {
            out.push(a);
        }
        proof {
            let prefix = addrs@.take(i as int);
            assert(addrs@.take(i + 1) =~= prefix.push(addrs@[i as int]));
            prefix.lemma_filter_push(addrs@[i as int], pred);
            assert(out@ =~= addrs@.take(i + 1).filter(pred));
        }
        i = i + 1;
    }
    proof {
        assert(addrs@.take(n as int) =~= addrs@);
    }
    out
}

/// One discovered service instance.  A browse's add event populates name,
/// type and domain; the resolve step fills host, port, addresses and TXT
/// record.
#[derive(Debug, Clone)]
pub struct ServiceDiscovery {
    name: String,
    service_type: ServiceType,
    domain: String,
    host: Option<String>,
    port: Option<u16>,
    addresses: Vec<IpAddress>,
    txt: Option<TxtRecord>,
}

impl ServiceDiscovery {
    pub closed spec fn spec_name(self) -> Seq<char> {
        self.name@
    }

    pub closed spec fn spec_service_type(self) -> ServiceType {
        self.service_type
    }

    pub closed spec fn spec_domain(self) -> Seq<char> {
        self.domain@
    }

    pub closed spec fn spec_host(self) -> Option<Seq<char>> {
        match self.host {
            Some(h) => Some(h@),
            None => None,
        }
    }

    pub closed spec fn spec_port(self) -> Option<u16> {
        self.port
    }

    pub closed spec fn spec_addresses(self) -> Seq<IpAddress> {
        self.addresses@
    }

    pub closed spec fn spec_txt(self) -> Option<TxtRecord> {
        self.txt
    }

    /// A not-yet-resolved discovery: what a browse add/remove event carries.
    pub fn unresolved(name: String, service_type: ServiceType, domain: String) -> (r:
        ServiceDiscovery)
        ensures
            r.spec_name() == name@,
            r.spec_service_type() == service_type,
            r.spec_domain() == domain@,
            r.spec_host() is None,
            r.spec_port() is None,
            r.spec_addresses() == Seq::<IpAddress>::empty(),
            r.spec_txt() is None,
    {
        let addresses: Vec<IpAddress> = Vec::new();
        proof {
            assert(addresses@ =~= Seq::<IpAddress>::empty());
        }
        ServiceDiscovery {
            name,
            service_type,
            domain,
            host: None,
            port: None,
            addresses,
            txt: None,
        }
    }

    /// A fully resolved discovery.
    pub fn resolved(
        name: String,
        service_type: ServiceType,
        domain: String,
        host: String,
        port: u16,
        addresses: Vec<IpAddress>,
        txt: TxtRecord,
    ) -> (r: ServiceDiscovery)
        ensures
            r.spec_name() == name@,
            r.spec_service_type() == service_type,
            r.spec_domain() == domain@,
            r.spec_host() == Some(host@),
            r.spec_port() == Some(port),
            r.spec_addresses() == addresses@,
            r.spec_txt() == Some(txt),
    {
        ServiceDiscovery {
            name,
            service_type,
            domain,
            host: Some(host),
            port: Some(port),
            addresses,
            txt: Some(txt),
        }
    }

    /// The discovered instance name.
    pub fn name(&self) -> (r: &String)
        ensures
            r@ == self.spec_name(),
    {
        &self.name
    }

    /// The discovered service type.
    pub fn service_type(&self) -> (r: &ServiceType)
        ensures
            *r == self.spec_service_type(),
    {
        &self.service_type
    }

    /// The domain the instance was discovered in.
    pub fn domain(&self) -> (r: &String)
        ensures
            r@ == self.spec_domain(),
    {
        &self.domain
    }

    /// The resolved host name, once the resolve step has run.
    pub fn host(&self) -> (r: &Option<String>)
        ensures
            (*r is Some) == (self.spec_host() is Some),
            *r matches Some(h) ==> self.spec_host() == Some(h@),
    {
        &self.host
    }

    /// The resolved port, once the resolve step has run.
    pub fn port(&self) -> (r: &Option<u16>)
        ensures
            *r == self.spec_port(),
    {
        &self.port
    }

    /// The resolved addresses, as admitted by the browser's family filter.
    pub fn addresses(&self) -> (r: &Vec<IpAddress>)
        ensures
            r@ == self.spec_addresses(),
    {
        &self.addresses
    }

    /// The resolved TXT record, once the resolve step has run.
    pub fn txt(&self) -> (r: &Option<TxtRecord>)
        ensures
            *r == self.spec_txt(),
    {
        &self.txt
    }
}

/// The lifecycle of a browse operation: non-terminal once browsing.
#[derive(Debug, Copy, Clone, PartialEq, Eq, Structural)]
pub enum BrowserState {
    /// Built, not yet handed to the native layer.
    Created,
    /// Discovering; stays so until the caller destroys the browser.
    Browsing,
}

/// What the native layer reports on an outstanding browse.
#[derive(Debug, Clone)]
pub enum BrowseEvent {
    /// An instance appeared; only its name and domain are known yet.
    Added { name: String, domain: String },
    /// An instance went away.
    Removed { name: String, domain: String },
    /// The per-instance resolve completed with the full details.
    Resolved {
        name: String,
        domain: String,
        host: String,
        port: u16,
        addresses: Vec<IpAddress>,
        txt: TxtRecord,
    },
    /// The per-instance resolve failed.
    ResolveFailed { name: String },
}

/// A per-instance resolve the shell must now issue natively.
#[derive(Debug, Clone)]
pub struct ResolveRequest {
    pub name: String,
    pub domain: String,
}

/// What the user callback is handed: a discovery that appeared or one that
/// went away.
#[derive(Debug, Clone)]
pub enum DiscoveryEvent {
    Added(ServiceDiscovery),
    Removed(ServiceDiscovery),
}

/// The outcome of feeding one native event to a browser.
pub struct BrowseStep {
    /// The browser's next state.
    pub state: BrowserState,
    /// The resolve the shell must issue, if the event asks for one.
    pub resolve: Option<ResolveRequest>,
    /// What to deliver to the user callback, if anything.
    pub emit: Option<Result<DiscoveryEvent, Error>>,
}

/// Feeds one native event to a browser.  While browsing, an add is delivered
/// at once (unresolved) and a resolve is requested for it; a completed
/// resolve delivers the instance again, fully populated and with its
/// addresses filtered by the browser's family option; a removal is
/// delivered as such; and a failed resolve is delivered as a `ResolveError`
/// naming the instance.  No event — a failed resolve in particular — ever
/// moves the browser out of `Browsing`, so one instance's failure never
/// blocks the discovery of others.  Events before the browse starts are
/// ignored.
pub fn browse_step(
    state: BrowserState,
    event: BrowseEvent,
    service_type: ServiceType,
    family: AddressFamily,
) -> (r: BrowseStep)
    ensures
        r.state == state,
        (r.emit is Some) == (state is Browsing),
        state is Browsing ==> match event {
            BrowseEvent::Added { name, domain } => {
                &&& r.resolve matches Some(req) && req.name@ == name@ && req.domain@ == domain@
                &&& r.emit matches Some(Ok(DiscoveryEvent::Added(d))) && d.spec_name() == name@
                    && d.spec_domain() == domain@ && d.spec_service_type() == service_type
                    && d.spec_host() is None && d.spec_port() is None && d.spec_txt() is None
                    && d.spec_addresses() == Seq::<IpAddress>::empty()
            },
            BrowseEvent::Removed { name, domain } => {
                &&& r.resolve is None
                &&& r.emit matches Some(Ok(DiscoveryEvent::Removed(d))) && d.spec_name() == name@
                    && d.spec_domain() == domain@ && d.spec_service_type() == service_type
                    && d.spec_host() is None && d.spec_port() is None && d.spec_txt() is None
                    && d.spec_addresses() == Seq::<IpAddress>::empty()
            },
            BrowseEvent::Resolved { name, domain, host, port, addresses, txt } => {
                &&& r.resolve is None
                &&& r.emit matches Some(Ok(DiscoveryEvent::Added(d))) && d.spec_name() == name@
                    && d.spec_domain() == domain@ && d.spec_service_type() == service_type
                    && d.spec_host() == Some(host@) && d.spec_port() == Some(port)
                    && d.spec_addresses() == addresses@.filter(
                    |a: IpAddress| family_admits(family, a),
                ) && d.spec_txt() == Some(txt)
            },
            BrowseEvent::ResolveFailed { name } => {
                &&& r.resolve is None
                &&& r.emit matches Some(Err(Error::ResolveError { name: n })) && n@ == name@
            },
        },
        !(state is Browsing) ==> r.resolve is None && r.emit is None,
{
    match state {
        BrowserState::Browsing => match event {
            BrowseEvent::Added { name, domain } => {
                let req = ResolveRequest { name: name.clone(), domain: domain.clone() };
                let d = ServiceDiscovery::unresolved(name, service_type, domain);
                BrowseStep {
                    state,
                    resolve: Some(req),
                    emit: Some(Ok(DiscoveryEvent::Added(d))),
                }
            },
            BrowseEvent::Removed { name, domain } => {
                let d = ServiceDiscovery::unresolved(name, service_type, domain);
                BrowseStep { state, resolve: None, emit: Some(Ok(DiscoveryEvent::Removed(d))) }
            },
            BrowseEvent::Resolved { name, domain, host, port, addresses, txt } => {
                let kept = filter_addresses(addresses, family);
                let d = ServiceDiscovery::resolved(name, service_type, domain, host, port, kept, txt);
                BrowseStep { state, resolve: None, emit: Some(Ok(DiscoveryEvent::Added(d))) }
            },
            BrowseEvent::ResolveFailed { name } => BrowseStep {
                state,
                resolve: None,
                emit: Some(Err(Error::ResolveError { name })),
            },
        },
        BrowserState::Created => BrowseStep { state, resolve: None, emit: None },
    }
}

/// Hands the built browser to the native layer: discovery begins.
pub fn start_browse(state: BrowserState) -> (r: BrowserState)
    requires
        state is Created,
    ensures
        r is Browsing,
{
    BrowserState::Browsing
}

} // verus!
