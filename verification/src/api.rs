//! Request handlers.
//!
//! Each handler takes the application state, the outcome of the identity
//! provider lookup that the surrounding program performed for the
//! request's bearer credential, the request body where there is one, and
//! the current instant.  A denied request answers with the same empty
//! reply as "nothing to report", so the wire leaks nothing about
//! authentication state; only the panic route distinguishes.
use crate::TTL_SECONDS;
use crate::oidc::{Authorization, LookupError, UserClaims, group_views, spec_any_group_allowed};
use crate::state::AppState;
use crate::store::ExpiringStore;
use crate::types::{Arrival, ArrivalRequest, ArrivalResponse, PresenceResponse, Response};
use crate::util::Secret;
use vstd::prelude::*;

verus! {

/// Reply of the identity-checked routes: success with a payload, success
/// without one — also the answer to every denial, indistinguishable on
/// the wire — or an internal failure.
pub enum GeneralResponse<T> {
    /// HTTP 200, with a body.
    Success(T),
    /// HTTP 204, empty body.
    Empty,
    /// HTTP 500.
    Error,
}

/// Reply of the panic route; unlike the other routes it does distinguish
/// success from a rejected credential.
#[derive(Clone, Copy, PartialEq, Eq, Structural, Debug)]
pub enum PanicResponse {
    /// HTTP 200: both stores were verifiably drained before this reply
    /// came into existence.
    Success,
    /// HTTP 401: the presented key is wrong; nothing was touched.
    Unauthorized,
}

/// Whether, on this lookup outcome, the authorization check lets a request through:
/// the claims arrived and name at least one authorized group.
pub open spec fn spec_authorized(
    state: AppState,
    lookup: Result<UserClaims, LookupError>,
) -> bool {
    match lookup {
        Ok(claims) => spec_any_group_allowed(
            group_views(claims.groups),
            state.oidc_service.allowed_groups(),
        ),
        Err(_) => false,
    }
}

/// The identity a lookup outcome resolves to, if any: a stated,
/// non-empty preferred username.  An identity names a person and is
/// never empty, so an empty claim resolves to nothing.
pub open spec fn spec_username(lookup: Result<UserClaims, LookupError>) -> Option<Seq<char>> {
    match lookup {
        Ok(claims) => match claims.preferred_username {
            Some(u) => if u@.len() == 0 {
                None
            } else {
                Some(u@)
            },
            None => None,
        },
        Err(_) => None,
    }
}

/// Law (server-assigned edit time): a store that `ArrivalApi::put` left
/// behind for an authorized, resolving request — any store meeting that
/// contract — shows, at every instant the write lives, a record whose
/// `edited_at` is exactly the server instant `now` at which the write was
/// accepted, independent of the client-stated arrival time `data.when`,
/// which may lie before or after it.
pub proof fn lemma_edited_at_server_assigned(
    s: AppState,
    data: ArrivalRequest,
    name: Seq<char>,
    now: i64,
    t: int,
)
    requires
        forall|t2: int|
            s.arrivals.spec_get(name, t2) == (if t2 < now + TTL_SECONDS {
                Some(
                    (Arrival {
                        arrival_type: data.arrival_type,
                        when: data.when,
                        edited_at: now,
                    }),
                )
            } else {
                None::<Arrival>
            }),
        now <= t < now + TTL_SECONDS,
    ensures
        match s.arrivals.spec_get(name, t) {
            Some(record) => record.edited_at == now && record.when == data.when,
            None => false,
        },
{
}

/// Handlers of the arrival routes.
pub struct ArrivalApi;

impl ArrivalApi {
    /// Announce a new arrival, replacing any previous one whole.  On an
    /// authorized request whose identity resolves, the record is written
    /// under that identity with `edited_at` set to `now` — the server's
    /// acceptance instant, independent of the client-stated `when` — and
    /// its time-to-live restarts.  A denial answers empty with nothing
    /// written; an identity that fails to resolve after passing authorization
    /// is an internal failure, also with nothing written.
    pub fn put(
        state: &mut AppState,
        lookup: &Result<UserClaims, LookupError>,
        data: ArrivalRequest,
        now: i64,
    ) -> (r: GeneralResponse<()>)
        requires
            old(state).wf(),
            now <= i64::MAX - TTL_SECONDS,
        ensures
            final(state).wf(),
            final(state).presence == old(state).presence,
            final(state).oidc_service == old(state).oidc_service,
            final(state).panic_key == old(state).panic_key,
            !spec_authorized(*old(state), *lookup) ==> r is Empty && *final(state) == *old(state),
            spec_authorized(*old(state), *lookup) && spec_username(*lookup) is None ==> r
                is Error && *final(state) == *old(state),
            spec_authorized(*old(state), *lookup) ==> match spec_username(*lookup) {
                None => true,
                Some(name) => {
                    &&& r is Empty
                    &&& forall|t: int|
                        final(state).arrivals.spec_get(name, t) == (if t < now + TTL_SECONDS {
                            Some(
                                (Arrival {
                                    arrival_type: data.arrival_type,
                                    when: data.when,
                                    edited_at: now,
                                }),
                            )
                        } else {
                            None::<Arrival>
                        })
                    &&& forall|k: Seq<char>, t: int|
                        k != name ==> final(state).arrivals.spec_get(k, t) == old(
                            state,
                        ).arrivals.spec_get(k, t)
                    &&& forall|k: Seq<char>|
                        final(state).arrivals.has_key(k) <==> (old(state).arrivals.has_key(k)
                            || k == name)
                },
            },
    {
        match state.oidc_service.is_allowed(lookup) {
            Authorization::Allowed => {},
            _ => {
                return GeneralResponse::Empty;
            },
        }
        match state.oidc_service.load_username(lookup) {
            Ok(username) => {
                let record = Arrival {
                    arrival_type: data.arrival_type,
                    when: data.when,
                    edited_at: now,
                };
                state.arrivals.insert(username, record, now);
                GeneralResponse::Empty
            },
            Err(_) => GeneralResponse::Error,
        }
    }

    /// Get all live arrival announcements.  A denial answers empty —
    /// deliberately the same shape as an authorized reply would have with
    /// no live entries; an authorized request receives exactly the
    /// entries visible at `now`, each identity once.
    pub fn get(state: &AppState, lookup: &Result<UserClaims, LookupError>, now: i64) -> (r:
        GeneralResponse<ArrivalResponse>)
        requires
            state.wf(),
        ensures
            !spec_authorized(*state, *lookup) ==> r is Empty,
            spec_authorized(*state, *lookup) ==> match r {
                GeneralResponse::Success(resp) => {
                    &&& forall|p: int|
                        0 <= p < resp.users@.len() ==> state.arrivals.spec_get(
                            (#[trigger] resp.users@[p]).0@,
                            now as int,
                        ) == Some(resp.users@[p].1)
                    &&& forall|p: int, q: int|
                        0 <= p < q < resp.users@.len() ==> resp.users@[p].0@ != resp.users@[q].0@
                    &&& forall|k: Seq<char>|
                        state.arrivals.spec_get(k, now as int) is Some ==> exists|p: int|
                            0 <= p < resp.users@.len() && (#[trigger] resp.users@[p]).0@ == k
                },
                _ => false,
            },
    {
        match state.oidc_service.is_allowed(lookup) {
            Authorization::Allowed => {},
            _ => {
                return GeneralResponse::Empty;
            },
        }
        let users = state.arrivals.iterate(now);
        GeneralResponse::Success(ArrivalResponse { users })
    }

    /// Remove your announced arrival, if any; removing an absent one is
    /// not an error.  A denial answers empty with nothing removed.
    pub fn delete(state: &mut AppState, lookup: &Result<UserClaims, LookupError>) -> (r:
        GeneralResponse<()>)
        requires
            old(state).wf(),
        ensures
            final(state).wf(),
            final(state).presence == old(state).presence,
            final(state).oidc_service == old(state).oidc_service,
            final(state).panic_key == old(state).panic_key,
            !spec_authorized(*old(state), *lookup) ==> r is Empty && *final(state) == *old(state),
            spec_authorized(*old(state), *lookup) && spec_username(*lookup) is None ==> r
                is Error && *final(state) == *old(state),
            spec_authorized(*old(state), *lookup) ==> match spec_username(*lookup) {
                None => true,
                Some(name) => {
                    &&& r is Empty
                    &&& !final(state).arrivals.has_key(name)
                    &&& forall|t: int|
                        final(state).arrivals.spec_get(name, t) == None::<Arrival>
                    &&& forall|k: Seq<char>, t: int|
                        k != name ==> final(state).arrivals.spec_get(k, t) == old(
                            state,
                        ).arrivals.spec_get(k, t)
                },
            },
    {
        match state.oidc_service.is_allowed(lookup) {
            Authorization::Allowed => {},
            _ => {
                return GeneralResponse::Empty;
            },
        }
        match state.oidc_service.load_username(lookup) {
            Ok(username) => {
                state.arrivals.remove(&username);
                GeneralResponse::Empty
            },
            Err(_) => GeneralResponse::Error,
        }
    }
}

/// Handler of the health route.
pub struct HealthApi;

impl HealthApi {
    /// The fixed all-is-well message; needs no credential.
    pub fn get() -> (r: Response)
        ensures
            r.message@ == "Everything is working fine! :33"@,
    {
        Response { message: Secret::new("Everything is working fine! :33".to_owned()) }
    }
}

/// Handler of the panic route.
pub struct PanicApi;

impl PanicApi {
    /// Clear any and all user data from memory.  A wrong key is rejected
    /// with both stores untouched.  The right key invalidates both stores
    /// and then waits for both sweeps to complete, in that order, so that
    /// when the success reply exists, no entry — live, expired or
    /// invalidated — remains physically stored in either.
    pub fn post(state: &mut AppState, token: &String, now: i64) -> (r: PanicResponse)
        requires
            old(state).wf(),
        ensures
            final(state).wf(),
            final(state).oidc_service == old(state).oidc_service,
            final(state).panic_key == old(state).panic_key,
            token@ != old(state).panic_key@ ==> r == PanicResponse::Unauthorized
                && *final(state) == *old(state),
            token@ == old(state).panic_key@ ==> {
                &&& r == PanicResponse::Success
                &&& final(state).arrivals.entry_count() == 0
                &&& final(state).presence.entry_count() == 0
                &&& forall|k: Seq<char>, t: int|
                    final(state).arrivals.spec_get(k, t) == None::<Arrival>
                &&& forall|k: Seq<char>, t: int|
                    final(state).presence.spec_get(k, t) == None::<i64>
                &&& forall|k: Seq<char>|
                    !final(state).arrivals.has_key(k) && !final(state).presence.has_key(k)
            },
    {
        if !(*token == *state.panic_key.expose()) {
            return PanicResponse::Unauthorized;
        }
        state.arrivals.invalidate_all();
        state.presence.invalidate_all();
        let ghost mid_arrivals = state.arrivals;
        let ghost mid_presence = state.presence;
        state.arrivals.run_pending_tasks(now);
        state.presence.run_pending_tasks(now);
        proof {
            ExpiringStore::<Arrival>::lemma_invalidate_then_drain(
                mid_arrivals,
                state.arrivals,
                now as int,
            );
            ExpiringStore::<i64>::lemma_invalidate_then_drain(
                mid_presence,
                state.presence,
                now as int,
            );
        }
        PanicResponse::Success
    }
}

/// Handlers of the presence routes.
pub struct PresenceApi;

impl PresenceApi {
    /// Announce yourself present now, replacing any previous
    /// announcement.  On an authorized request whose identity resolves,
    /// `now` is stored under that identity and the entry's time-to-live
    /// restarts; denials and resolution failures behave as for arrivals.
    pub fn put(state: &mut AppState, lookup: &Result<UserClaims, LookupError>, now: i64) -> (r:
        GeneralResponse<()>)
        requires
            old(state).wf(),
            now <= i64::MAX - TTL_SECONDS,
        ensures
            final(state).wf(),
            final(state).arrivals == old(state).arrivals,
            final(state).oidc_service == old(state).oidc_service,
            final(state).panic_key == old(state).panic_key,
            !spec_authorized(*old(state), *lookup) ==> r is Empty && *final(state) == *old(state),
            spec_authorized(*old(state), *lookup) && spec_username(*lookup) is None ==> r
                is Error && *final(state) == *old(state),
            spec_authorized(*old(state), *lookup) ==> match spec_username(*lookup) {
                None => true,
                Some(name) => {
                    &&& r is Empty
                    &&& forall|t: int|
                        final(state).presence.spec_get(name, t) == (if t < now + TTL_SECONDS {
                            Some(now)
                        } else {
                            None::<i64>
                        })
                    &&& forall|k: Seq<char>, t: int|
                        k != name ==> final(state).presence.spec_get(k, t) == old(
                            state,
                        ).presence.spec_get(k, t)
                    &&& forall|k: Seq<char>|
                        final(state).presence.has_key(k) <==> (old(state).presence.has_key(k)
                            || k == name)
                },
            },
    {
        match state.oidc_service.is_allowed(lookup) {
            Authorization::Allowed => {},
            _ => {
                return GeneralResponse::Empty;
            },
        }
        match state.oidc_service.load_username(lookup) {
            Ok(username) => {
                state.presence.insert(username, now, now);
                GeneralResponse::Empty
            },
            Err(_) => GeneralResponse::Error,
        }
    }

    /// Get all current presence announcements; a denial answers empty,
    /// an authorized request receives exactly the entries visible at
    /// `now`, each identity once.
    pub fn get(state: &AppState, lookup: &Result<UserClaims, LookupError>, now: i64) -> (r:
        GeneralResponse<PresenceResponse>)
        requires
            state.wf(),
        ensures
            !spec_authorized(*state, *lookup) ==> r is Empty,
            spec_authorized(*state, *lookup) ==> match r {
                GeneralResponse::Success(resp) => {
                    &&& forall|p: int|
                        0 <= p < resp.users@.len() ==> state.presence.spec_get(
                            (#[trigger] resp.users@[p]).0@,
                            now as int,
                        ) == Some(resp.users@[p].1)
                    &&& forall|p: int, q: int|
                        0 <= p < q < resp.users@.len() ==> resp.users@[p].0@ != resp.users@[q].0@
                    &&& forall|k: Seq<char>|
                        state.presence.spec_get(k, now as int) is Some ==> exists|p: int|
                            0 <= p < resp.users@.len() && (#[trigger] resp.users@[p]).0@ == k
                },
                _ => false,
            },
    {
        match state.oidc_service.is_allowed(lookup) {
            Authorization::Allowed => {},
            _ => {
                return GeneralResponse::Empty;
            },
        }
        let users = state.presence.iterate(now);
        GeneralResponse::Success(PresenceResponse { users })
    }

    /// Delete your presence announcement, if any; removing an absent one
    /// is not an error.  A denial answers empty with nothing removed.
    pub fn delete(state: &mut AppState, lookup: &Result<UserClaims, LookupError>) -> (r:
        GeneralResponse<()>)
        requires
            old(state).wf(),
        ensures
            final(state).wf(),
            final(state).arrivals == old(state).arrivals,
            final(state).oidc_service == old(state).oidc_service,
            final(state).panic_key == old(state).panic_key,
            !spec_authorized(*old(state), *lookup) ==> r is Empty && *final(state) == *old(state),
            spec_authorized(*old(state), *lookup) && spec_username(*lookup) is None ==> r
                is Error && *final(state) == *old(state),
            spec_authorized(*old(state), *lookup) ==> match spec_username(*lookup) {
                None => true,
                Some(name) => {
                    &&& r is Empty
                    &&& !final(state).presence.has_key(name)
                    &&& forall|t: int| final(state).presence.spec_get(name, t) == None::<i64>
                    &&& forall|k: Seq<char>, t: int|
                        k != name ==> final(state).presence.spec_get(k, t) == old(
                            state,
                        ).presence.spec_get(k, t)
                },
            },
    {
        match state.oidc_service.is_allowed(lookup) {
            Authorization::Allowed => {},
            _ => {
                return GeneralResponse::Empty;
            },
        }
        match state.oidc_service.load_username(lookup) {
            Ok(username) => {
                state.presence.remove(&username);
                GeneralResponse::Empty
            },
            Err(_) => GeneralResponse::Error,
        }
    }
}

} // verus!
