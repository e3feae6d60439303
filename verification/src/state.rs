//! Process-wide application state.
//!
//! One value of `AppState` is created at startup and lives for the whole
//! process; it owns the two expiring stores, the identity resolver and the
//! panic key.  No store entry is reachable from anywhere else, so the
//! panic flow's drain of both stores verifiably erases all user data.
use crate::TTL_SECONDS;
use crate::oidc::OidcService;
use crate::store::ExpiringStore;
use crate::types::Arrival;
use crate::util::Secret;
use vstd::prelude::*;

verus! {

/// Both stores, the identity resolver and the panic key.
pub struct AppState {
    /// Arrival announcements, keyed by identity.
    pub arrivals: ExpiringStore<Arrival>,
    /// The identity resolver and authorization check.
    pub oidc_service: OidcService,
    /// The static shared secret of the panic route.
    pub panic_key: Secret,
    /// Presence announcements, keyed by identity; the value is the
    /// instant the identity announced itself present.
    pub presence: ExpiringStore<i64>,
}

impl AppState {
    /// Both stores are well-formed and expire entries after the
    /// configured time-to-live.
    pub open spec fn wf(self) -> bool {
        &&& self.arrivals.wf()
        &&& self.presence.wf()
        &&& self.arrivals.ttl() == TTL_SECONDS as int
        &&& self.presence.ttl() == TTL_SECONDS as int
    }

    /// Fresh state: two empty stores with the configured time-to-live,
    /// the given resolver and the given panic key.
    pub fn new(panic_key: Secret, oidc_service: OidcService) -> (r: AppState)
        ensures
            r.wf(),
            r.panic_key == panic_key,
            r.oidc_service == oidc_service,
            r.arrivals.entry_count() == 0,
            r.presence.entry_count() == 0,
            forall|k: Seq<char>, t: int| r.arrivals.spec_get(k, t) == None::<Arrival>,
            forall|k: Seq<char>, t: int| r.presence.spec_get(k, t) == None::<i64>,
            forall|k: Seq<char>| !r.arrivals.has_key(k) && !r.presence.has_key(k),
    {
        AppState {
            arrivals: ExpiringStore::new(TTL_SECONDS),
            oidc_service,
            panic_key,
            presence: ExpiringStore::new(TTL_SECONDS),
        }
    }
}

} // verus!
