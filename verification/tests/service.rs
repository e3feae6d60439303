use openlab_app_rest::TTL_SECONDS;
use openlab_app_rest::api::{ArrivalApi, GeneralResponse, HealthApi, PanicApi, PanicResponse, PresenceApi};
use openlab_app_rest::oidc::{AuthError, Authorization, LookupError, OidcService, UserClaims};
use openlab_app_rest::state::AppState;
use openlab_app_rest::store::ExpiringStore;
use openlab_app_rest::types::{ArrivalRequest, ArrivalType};
use openlab_app_rest::util::Secret;

fn secret(s: &str) -> Secret {
    Secret::new(s.to_string())
}

fn groups(names: &[&str]) -> Vec<String> {
    names.iter().map(|n| n.to_string()).collect()
}

fn member_claims(name: &str) -> Result<UserClaims, LookupError> {
    Ok(UserClaims { preferred_username: Some(secret(name)), groups: groups(&["members"]) })
}

fn fresh_state() -> AppState {
    AppState::new(secret("hunter2"), OidcService::new(groups(&["members"])))
}

#[test]
fn ttl_is_six_hours() {
    assert_eq!(TTL_SECONDS, 21600);
}

#[test]
fn secret_round_trip() {
    let s = secret("confidential");
    assert_eq!(s.expose(), "confidential");
    let d = s.duplicate();
    assert_eq!(d.expose(), "confidential");
    assert!(s.same(&d));
    assert!(!s.same(&secret("other")));
}

#[test]
fn store_read_your_write() {
    let mut store: ExpiringStore<i64> = ExpiringStore::new(50);
    store.insert(secret("k"), 7, 1000);
    assert_eq!(store.get(&secret("k"), 1000), Some(7));
}

#[test]
fn store_last_write_wins() {
    let mut store: ExpiringStore<i64> = ExpiringStore::new(50);
    store.insert(secret("k"), 1, 1000);
    store.insert(secret("k"), 2, 1001);
    assert_eq!(store.get(&secret("k"), 1001), Some(2));
}

#[test]
fn store_entry_expires_after_ttl() {
    let mut store: ExpiringStore<i64> = ExpiringStore::new(50);
    store.insert(secret("k"), 7, 1000);
    assert_eq!(store.get(&secret("k"), 1049), Some(7));
    assert_eq!(store.get(&secret("k"), 1050), None);
    assert_eq!(store.get(&secret("k"), 2000), None);
}

#[test]
fn store_overwrite_renews_ttl() {
    let mut store: ExpiringStore<i64> = ExpiringStore::new(50);
    store.insert(secret("k"), 7, 1000);
    store.insert(secret("k"), 8, 1040);
    assert_eq!(store.get(&secret("k"), 1060), Some(8));
    assert_eq!(store.get(&secret("k"), 1090), None);
}

#[test]
fn store_remove_then_absent() {
    let mut store: ExpiringStore<i64> = ExpiringStore::new(50);
    store.insert(secret("k"), 7, 1000);
    store.remove(&secret("k"));
    assert_eq!(store.get(&secret("k"), 1000), None);
    store.remove(&secret("missing"));
    assert_eq!(store.get(&secret("missing"), 1000), None);
}

#[test]
fn store_invalidate_all_then_drain() {
    let mut store: ExpiringStore<i64> = ExpiringStore::new(50);
    store.insert(secret("a"), 1, 1000);
    store.insert(secret("b"), 2, 1000);
    store.invalidate_all();
    assert_eq!(store.get(&secret("a"), 1000), None);
    assert_eq!(store.get(&secret("b"), 1000), None);
    store.run_pending_tasks(1000);
    assert!(store.iterate(1000).is_empty());
    assert_eq!(store.get(&secret("a"), 1000), None);
}

#[test]
fn store_sweep_keeps_live_entries() {
    let mut store: ExpiringStore<i64> = ExpiringStore::new(50);
    store.insert(secret("old"), 1, 1000);
    store.insert(secret("new"), 2, 1040);
    store.run_pending_tasks(1060);
    assert_eq!(store.get(&secret("old"), 1060), None);
    assert_eq!(store.get(&secret("new"), 1060), Some(2));
    let live = store.iterate(1060);
    assert_eq!(live.len(), 1);
    assert_eq!(live[0].0.expose(), "new");
    assert_eq!(live[0].1, 2);
}

#[test]
fn store_iterate_lists_each_live_key_once() {
    let mut store: ExpiringStore<i64> = ExpiringStore::new(50);
    store.insert(secret("a"), 1, 1000);
    store.insert(secret("b"), 2, 1000);
    store.insert(secret("a"), 3, 1010);
    let mut names: Vec<String> = store
        .iterate(1010)
        .iter()
        .map(|p| p.0.expose().clone())
        .collect();
    names.sort();
    assert_eq!(names, vec!["a".to_string(), "b".to_string()]);
}

#[test]
fn health_message_is_fixed() {
    let r = HealthApi::get();
    assert_eq!(r.message.expose(), "Everything is working fine! :33");
}

#[test]
fn load_username_maps_lookup_outcomes() {
    let service = OidcService::new(groups(&["members"]));
    let ok = service.load_username(&member_claims("ghost"));
    assert_eq!(ok.unwrap().expose(), "ghost");
    let missing = service.load_username(&Ok(UserClaims {
        preferred_username: None,
        groups: groups(&["members"]),
    }));
    assert!(matches!(missing, Err(AuthError::MissingClaim)));
    let rejected = service.load_username(&Err(LookupError::Rejected));
    assert!(matches!(rejected, Err(AuthError::InvalidCredential)));
    let down = service.load_username(&Err(LookupError::Unavailable));
    assert!(matches!(down, Err(AuthError::UpstreamUnavailable)));
}

#[test]
fn is_allowed_requires_a_shared_group() {
    let service = OidcService::new(groups(&["members", "staff"]));
    let member = Ok(UserClaims {
        preferred_username: Some(secret("ghost")),
        groups: groups(&["guests", "staff"]),
    });
    assert_eq!(service.is_allowed(&member), Authorization::Allowed);
    let outsider = Ok(UserClaims {
        preferred_username: Some(secret("ghost")),
        groups: groups(&["guests"]),
    });
    assert_eq!(service.is_allowed(&outsider), Authorization::Forbidden);
    let nobody = Ok(UserClaims { preferred_username: Some(secret("ghost")), groups: vec![] });
    assert_eq!(service.is_allowed(&nobody), Authorization::Forbidden);
    assert_eq!(
        service.is_allowed(&Err(LookupError::Unavailable)),
        Authorization::Failed(AuthError::UpstreamUnavailable),
    );
}

#[test]
fn arrival_edited_at_is_server_assigned() {
    let mut state = fresh_state();
    let request = ArrivalRequest {
        nickname: secret("casper"),
        arrival_type: ArrivalType::Fokus,
        when: 5,
    };
    let before = 1000;
    let put = ArrivalApi::put(&mut state, &member_claims("ghost"), request, before);
    assert!(matches!(put, GeneralResponse::Empty));
    let got = ArrivalApi::get(&state, &member_claims("ghost"), 1000);
    match got {
        GeneralResponse::Success(resp) => {
            assert_eq!(resp.users.len(), 1);
            assert_eq!(resp.users[0].0.expose(), "ghost");
            let record = resp.users[0].1;
            assert!(matches!(record.arrival_type, ArrivalType::Fokus));
            assert_eq!(record.when, 5);
            assert!(record.edited_at >= before);
            assert_ne!(record.edited_at, record.when);
        }
        _ => panic!("expected a payload"),
    }
}

#[test]
fn arrival_put_twice_returns_second() {
    let mut state = fresh_state();
    let first = ArrivalRequest {
        nickname: secret("casper"),
        arrival_type: ArrivalType::Connecten,
        when: 5,
    };
    let second = ArrivalRequest {
        nickname: secret("casper"),
        arrival_type: ArrivalType::Gammeln,
        when: 9,
    };
    ArrivalApi::put(&mut state, &member_claims("ghost"), first, 1000);
    ArrivalApi::put(&mut state, &member_claims("ghost"), second, 1001);
    match ArrivalApi::get(&state, &member_claims("ghost"), 1001) {
        GeneralResponse::Success(resp) => {
            assert_eq!(resp.users.len(), 1);
            let record = resp.users[0].1;
            assert!(matches!(record.arrival_type, ArrivalType::Gammeln));
            assert_eq!(record.when, 9);
        }
        _ => panic!("expected a payload"),
    }
}

#[test]
fn arrival_delete_removes_own_entry() {
    let mut state = fresh_state();
    let request = ArrivalRequest {
        nickname: secret("casper"),
        arrival_type: ArrivalType::Fokus,
        when: 5,
    };
    ArrivalApi::put(&mut state, &member_claims("ghost"), request, 1000);
    let del = ArrivalApi::delete(&mut state, &member_claims("ghost"));
    assert!(matches!(del, GeneralResponse::Empty));
    match ArrivalApi::get(&state, &member_claims("ghost"), 1000) {
        GeneralResponse::Success(resp) => assert!(resp.users.is_empty()),
        _ => panic!("expected a payload"),
    }
}

#[test]
fn denied_requests_answer_empty_and_write_nothing() {
    let mut state = fresh_state();
    let outsider = Ok(UserClaims {
        preferred_username: Some(secret("ghost")),
        groups: groups(&["guests"]),
    });
    let request = ArrivalRequest {
        nickname: secret("casper"),
        arrival_type: ArrivalType::Fokus,
        when: 5,
    };
    assert!(matches!(
        ArrivalApi::put(&mut state, &outsider, request, 1000),
        GeneralResponse::Empty
    ));
    assert!(matches!(ArrivalApi::get(&state, &outsider, 1000), GeneralResponse::Empty));
    match ArrivalApi::get(&state, &member_claims("ghost"), 1000) {
        GeneralResponse::Success(resp) => assert!(resp.users.is_empty()),
        _ => panic!("expected a payload"),
    }
}

#[test]
fn provider_timeout_leaks_no_data() {
    let mut state = fresh_state();
    let request = ArrivalRequest {
        nickname: secret("casper"),
        arrival_type: ArrivalType::Fokus,
        when: 5,
    };
    ArrivalApi::put(&mut state, &member_claims("ghost"), request, 1000);
    let timed_out: Result<UserClaims, LookupError> = Err(LookupError::Unavailable);
    assert!(matches!(ArrivalApi::get(&state, &timed_out, 1000), GeneralResponse::Empty));
}

#[test]
fn missing_username_after_gate_is_an_internal_error() {
    let mut state = fresh_state();
    let nameless = Ok(UserClaims { preferred_username: None, groups: groups(&["members"]) });
    let request = ArrivalRequest {
        nickname: secret("casper"),
        arrival_type: ArrivalType::Fokus,
        when: 5,
    };
    assert!(matches!(
        ArrivalApi::put(&mut state, &nameless, request, 1000),
        GeneralResponse::Error
    ));
    match ArrivalApi::get(&state, &member_claims("ghost"), 1000) {
        GeneralResponse::Success(resp) => assert!(resp.users.is_empty()),
        _ => panic!("expected a payload"),
    }
}

#[test]
fn presence_round_trip() {
    let mut state = fresh_state();
    let put = PresenceApi::put(&mut state, &member_claims("ghost"), 1234);
    assert!(matches!(put, GeneralResponse::Empty));
    match PresenceApi::get(&state, &member_claims("ghost"), 1234) {
        GeneralResponse::Success(resp) => {
            assert_eq!(resp.users.len(), 1);
            assert_eq!(resp.users[0].0.expose(), "ghost");
            assert_eq!(resp.users[0].1, 1234);
        }
        _ => panic!("expected a payload"),
    }
    let del = PresenceApi::delete(&mut state, &member_claims("ghost"));
    assert!(matches!(del, GeneralResponse::Empty));
    match PresenceApi::get(&state, &member_claims("ghost"), 1234) {
        GeneralResponse::Success(resp) => assert!(resp.users.is_empty()),
        _ => panic!("expected a payload"),
    }
}

#[test]
fn presence_entry_expires() {
    let mut state = fresh_state();
    PresenceApi::put(&mut state, &member_claims("ghost"), 1000);
    match PresenceApi::get(&state, &member_claims("ghost"), 1000 + TTL_SECONDS) {
        GeneralResponse::Success(resp) => assert!(resp.users.is_empty()),
        _ => panic!("expected a payload"),
    }
}

#[test]
fn panic_with_wrong_key_changes_nothing() {
    let mut state = fresh_state();
    let request = ArrivalRequest {
        nickname: secret("casper"),
        arrival_type: ArrivalType::Fokus,
        when: 5,
    };
    ArrivalApi::put(&mut state, &member_claims("ghost"), request, 1000);
    let r = PanicApi::post(&mut state, &"wrong".to_string(), 1000);
    assert_eq!(r, PanicResponse::Unauthorized);
    match ArrivalApi::get(&state, &member_claims("ghost"), 1000) {
        GeneralResponse::Success(resp) => assert_eq!(resp.users.len(), 1),
        _ => panic!("expected a payload"),
    }
}

#[test]
fn panic_with_right_key_drains_both_stores() {
    let mut state = fresh_state();
    let request = ArrivalRequest {
        nickname: secret("casper"),
        arrival_type: ArrivalType::Fokus,
        when: 5,
    };
    ArrivalApi::put(&mut state, &member_claims("ghost"), request, 1000);
    PresenceApi::put(&mut state, &member_claims("ghost"), 1000);
    let r = PanicApi::post(&mut state, &"hunter2".to_string(), 1000);
    assert_eq!(r, PanicResponse::Success);
    match ArrivalApi::get(&state, &member_claims("ghost"), 1000) {
        GeneralResponse::Success(resp) => assert!(resp.users.is_empty()),
        _ => panic!("expected a payload"),
    }
    match PresenceApi::get(&state, &member_claims("ghost"), 1000) {
        GeneralResponse::Success(resp) => assert!(resp.users.is_empty()),
        _ => panic!("expected a payload"),
    }
}

#[test]
fn empty_username_does_not_resolve() {
    let service = OidcService::new(groups(&["members"]));
    let empty = Ok(UserClaims {
        preferred_username: Some(secret("")),
        groups: groups(&["members"]),
    });
    let r = service.load_username(&empty);
    assert!(matches!(r, Err(AuthError::MissingClaim)));
}

#[test]
fn empty_username_stores_nothing() {
    let mut state = fresh_state();
    let empty = Ok(UserClaims {
        preferred_username: Some(secret("")),
        groups: groups(&["members"]),
    });
    let request = ArrivalRequest {
        nickname: secret("casper"),
        arrival_type: ArrivalType::Fokus,
        when: 5,
    };
    assert!(matches!(
        ArrivalApi::put(&mut state, &empty, request, 1000),
        GeneralResponse::Error
    ));
    assert!(matches!(PresenceApi::put(&mut state, &empty, 1000), GeneralResponse::Error));
    match ArrivalApi::get(&state, &member_claims("ghost"), 1000) {
        GeneralResponse::Success(resp) => assert!(resp.users.is_empty()),
        _ => panic!("expected a payload"),
    }
    match PresenceApi::get(&state, &member_claims("ghost"), 1000) {
        GeneralResponse::Success(resp) => assert!(resp.users.is_empty()),
        _ => panic!("expected a payload"),
    }
}
