use config_hub::appstate::AppState;
use config_hub::config::Config;
use config_hub::poller::poll_cycle;
use config_hub::websocket::{
    deliver_broadcast, ConfigWs, Connect, Disconnect, GenericWsMessage, SessionState, WsManager,
};

fn sample_config() -> Config {
    Config {
        ball_color: String::from("green"),
        ball_size: 20,
        ball_speed: 3,
        number_of_balls: 10,
    }
}

const SAMPLE_JSON: &str =
    "{\"ball_color\":\"green\",\"ball_size\":20,\"ball_speed\":3,\"number_of_balls\":10}";

const UNAVAILABLE: &str = "{\"error\": \"Configuration not available.\"}";

#[test]
fn shared_slot_starts_unset_and_returns_the_last_write() {
    let mut shared = AppState::default();
    assert_eq!(shared.read(), None);
    shared.write(sample_config());
    assert_eq!(shared.read(), Some(sample_config()));
    let newer = Config {
        ball_color: String::from("red"),
        ball_size: 1,
        ball_speed: 2,
        number_of_balls: 3,
    };
    shared.write(newer.clone());
    assert_eq!(shared.read(), Some(newer));
}

#[test]
fn a_fresh_hub_has_no_sessions() {
    let hub = WsManager::default();
    assert_eq!(hub.session_count(), 0);
    assert!(!hub.is_registered(1));
    let deliveries = hub.broadcast(&GenericWsMessage { config: sample_config() });
    assert!(deliveries.is_empty());
}

#[test]
fn unset_client_receives_unavailable_marker() {
    let shared = AppState::new();
    let mut hub = WsManager::new();
    let mut session = ConfigWs::new(1);
    let first = session.started(&mut hub, &shared);
    assert_eq!(first, UNAVAILABLE);
    assert!(matches!(session.state, SessionState::Active));
    assert!(hub.is_registered(1));
}

#[test]
fn client_connecting_after_write_receives_latest_config() {
    let mut shared = AppState::new();
    shared.write(sample_config());
    let mut hub = WsManager::new();
    let mut session = ConfigWs::new(4);
    let first = session.started(&mut hub, &shared);
    assert_eq!(first, SAMPLE_JSON);
}

#[test]
fn successful_poll_broadcasts_to_all_three_clients_once_each() {
    let mut shared = AppState::new();
    let mut hub = WsManager::new();
    let mut s1 = ConfigWs::new(1);
    let mut s2 = ConfigWs::new(2);
    let mut s3 = ConfigWs::new(3);
    s1.started(&mut hub, &shared);
    s2.started(&mut hub, &shared);
    s3.started(&mut hub, &shared);

    let deliveries = poll_cycle(&mut shared, &hub, Some(sample_config()));
    let deliveries = deliveries.expect("successful fetch must broadcast");
    assert_eq!(deliveries.len(), 3);

    let mut addrs: Vec<u64> = deliveries.iter().map(|d| d.addr).collect();
    addrs.sort();
    assert_eq!(addrs, vec![1, 2, 3]);

    for d in &deliveries {
        let session = match d.addr {
            1 => &s1,
            2 => &s2,
            _ => &s3,
        };
        let text = session.handle_broadcast(&d.msg);
        assert_eq!(text, SAMPLE_JSON);
    }
    assert_eq!(shared.read(), Some(sample_config()));
}

#[test]
fn get_config_command_is_answered_with_the_latest_snapshot() {
    let mut shared = AppState::new();
    let mut hub = WsManager::new();
    let mut session = ConfigWs::new(9);
    session.started(&mut hub, &shared);
    assert_eq!(session.handle_text("get_config", &shared), Some(UNAVAILABLE.to_string()));
    shared.write(sample_config());
    assert_eq!(session.handle_text("get_config", &shared), Some(SAMPLE_JSON.to_string()));
}

#[test]
fn unrecognized_text_produces_no_reply_and_keeps_the_session_open() {
    let mut shared = AppState::new();
    shared.write(sample_config());
    let mut hub = WsManager::new();
    let mut session = ConfigWs::new(2);
    session.started(&mut hub, &shared);
    assert_eq!(session.handle_text("hello there", &shared), None);
    assert_eq!(session.handle_text("", &shared), None);
    assert_eq!(session.handle_text("get_config ", &shared), None);
    assert!(matches!(session.state, SessionState::Active));
    assert!(hub.is_registered(2));
}

#[test]
fn failed_fetch_changes_nothing_and_broadcasts_nothing() {
    let mut shared = AppState::new();
    let hub = WsManager::new();
    assert!(poll_cycle(&mut shared, &hub, None).is_none());
    assert_eq!(shared.read(), None);

    shared.write(sample_config());
    assert!(poll_cycle(&mut shared, &hub, None).is_none());
    assert_eq!(shared.read(), Some(sample_config()));
}

#[test]
fn disconnect_mid_broadcast_still_reaches_the_remaining_clients() {
    let mut hub = WsManager::new();
    hub.register(Connect { addr: 1 });
    hub.register(Connect { addr: 2 });
    hub.register(Connect { addr: 3 });
    let msg = GenericWsMessage { config: sample_config() };
    let deliveries = hub.broadcast(&msg);
    assert_eq!(deliveries.len(), 3);

    // The send to the second client fails (it disconnected); the others
    // still complete.
    let outcomes = vec![true, false, true];
    let done = deliver_broadcast(&deliveries, &outcomes);
    assert_eq!(done.len(), 2);
    assert!(done.contains(&deliveries[0].addr));
    assert!(!done.contains(&deliveries[1].addr));
    assert!(done.contains(&deliveries[2].addr));
}

#[test]
fn registration_is_idempotent() {
    let mut hub = WsManager::new();
    hub.register(Connect { addr: 7 });
    assert_eq!(hub.session_count(), 1);
    hub.register(Connect { addr: 7 });
    assert_eq!(hub.session_count(), 1);
    assert!(hub.is_registered(7));
}

#[test]
fn deregistering_an_absent_handle_is_a_no_op() {
    let mut hub = WsManager::new();
    hub.register(Connect { addr: 5 });
    hub.deregister(Disconnect { addr: 99 });
    assert_eq!(hub.session_count(), 1);
    assert!(hub.is_registered(5));
}

#[test]
fn a_deregistered_session_receives_no_later_broadcast() {
    let mut hub = WsManager::new();
    let shared = AppState::new();
    let mut s1 = ConfigWs::new(1);
    let mut s2 = ConfigWs::new(2);
    s1.started(&mut hub, &shared);
    s2.started(&mut hub, &shared);
    s1.stopping(&mut hub);
    s1.stopped();
    assert!(matches!(s1.state, SessionState::Stopped));
    assert!(!hub.is_registered(1));

    let msg = GenericWsMessage { config: sample_config() };
    let deliveries = hub.broadcast(&msg);
    assert_eq!(deliveries.len(), 1);
    assert_eq!(deliveries[0].addr, 2);
}
