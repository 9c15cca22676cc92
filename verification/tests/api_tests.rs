use cgminer_rs::api::auth::{
    authorize_request, generate_token, is_valid_api_key, is_valid_token, token_for, verify_permissions, AuthConfig,
};
use cgminer_rs::api::handlers::{control_command, get_pool, restart_device, update_device_config, update_pool_config};
use cgminer_rs::api::server::{api_info, cors_origins, health_status, server_address, server_url, validate_auth_token, CorsOrigins};
use cgminer_rs::api::websocket::{ClientMessage, ConnectionState, Reply, WebSocketManager, WebSocketStats};
use cgminer_rs::api::ApiResponse;
use cgminer_rs::config::Config;
use cgminer_rs::mining::MiningState;

fn auth() -> AuthConfig {
    AuthConfig {
        enabled: true,
        token: Some("t0ken".to_string()),
        api_keys: vec!["k1".to_string(), "k2".to_string()],
    }
}

#[test]
fn tokens_and_keys() {
    let config = auth();
    assert!(is_valid_token(&config, "t0ken"));
    assert!(!is_valid_token(&config, "t0ke"));
    assert!(is_valid_api_key(&config, "k2"));
    assert!(!is_valid_api_key(&config, "k3"));
    assert!(authorize_request(&config, Some("Bearer t0ken")));
    assert!(authorize_request(&config, Some("ApiKey k1")));
    assert!(!authorize_request(&config, Some("Bearer k1")));
    assert!(!authorize_request(&config, Some("Basic abc")));
    assert!(!authorize_request(&config, None));
    assert!(authorize_request(&AuthConfig::default(), None));
    assert!(verify_permissions("x", "admin"));
    assert!(!verify_permissions("", "admin"));
    assert_eq!(token_for(1700000000), "cgminer_token_1700000000");
    let token = generate_token();
    assert!(token.starts_with("cgminer_token_"));
    assert!(token["cgminer_token_".len()..].parse::<u64>().is_ok());
}

#[test]
fn responses() {
    let ok = ApiResponse::success(5u32);
    assert!(ok.success);
    assert_eq!(ok.data, Some(5));
    assert!(ok.error.is_none());
    assert!(ok.timestamp > 1_600_000_000);
    let err: ApiResponse<u32> = ApiResponse::error("bad".to_string());
    assert!(!err.success);
    assert_eq!(err.error.as_deref(), Some("bad"));
}

#[test]
fn server_description() {
    let mut config = Config::default().api;
    assert_eq!(server_address(&config), "127.0.0.1:8080");
    assert_eq!(server_url(&config), "http://127.0.0.1:8080");
    assert!(validate_auth_token(&config, None));
    config.auth_token = Some("s".to_string());
    assert!(!validate_auth_token(&config, None));
    assert!(validate_auth_token(&config, Some("s")));
    assert!(!validate_auth_token(&config, Some("t")));
    let info = api_info(&config, "0.1.0", true);
    assert_eq!(info.name, "CGMiner-RS API");
    assert!(info.auth_required);
    assert!(info.cors_enabled);
    assert_eq!(info.allowed_origins, vec!["*".to_string()]);
    let health = health_status(true, &MiningState::Error("x".to_string()), 7);
    assert!(health.api_server && !health.mining_manager && !health.overall);
    assert!(health_status(true, &MiningState::Running, 7).overall);
}

#[test]
fn handler_answers() {
    let r = control_command("pause");
    assert!(r.success);
    assert_eq!(r.message, "Mining paused successfully");
    let r = control_command("dance");
    assert!(!r.success);
    assert_eq!(r.message, "Unknown command: dance");
    assert_eq!(restart_device(1).unwrap(), "Device 1 restart initiated");
    assert_eq!(restart_device(2).unwrap_err(), "Device 2 not found");
    assert_eq!(update_device_config(0).unwrap(), "Device 0 configuration updated");
    assert_eq!(update_pool_config(5).unwrap_err(), "Pool 5 not found");
    let p = get_pool(0, 10_000).unwrap();
    assert_eq!(p.url, "stratum+tcp://pool0.example.com:4444");
    assert_eq!(p.connected_at, Some(6_400));
    assert_eq!(f64::from_bits(p.difficulty_bits), 1024.0);
    let p = get_pool(1, 10_000).unwrap();
    assert_eq!(p.status, "Disconnected");
    assert_eq!(p.priority, 2);
    assert!(get_pool(2, 10_000).is_err());
}

#[test]
fn websocket_subscriptions() {
    let mut c = ConnectionState::new(1, 100);
    assert!(!c.wants_mining_events());
    let reply = c.handle_message(
        &ClientMessage::Subscribe { events: vec!["mining_events".to_string(), "a".to_string(), "a".to_string()] },
        200,
    );
    assert_eq!(reply, None);
    assert_eq!(c.last_activity(), 200);
    assert!(c.wants_mining_events());
    assert!(c.is_subscribed("a"));
    assert_eq!(c.handle_message(&ClientMessage::Ping, 300), Some(Reply::Pong));
    assert_eq!(c.last_activity(), 200);
    c.handle_message(&ClientMessage::Unsubscribe { events: vec!["a".to_string()] }, 400);
    assert_eq!(c.last_activity(), 400);
    assert!(!c.is_subscribed("a"));
    assert!(c.wants_mining_events());
    assert!(!c.is_disconnected());
    c.mark_disconnected();
    assert!(c.is_disconnected());
}

#[test]
fn websocket_manager_tracks_connections() {
    let mut m = WebSocketManager::new();
    m.add_connection(ConnectionState::new(1, 100));
    m.add_connection(ConnectionState::new(2, 100));
    assert_eq!(m.get_connection_count(), 2);
    let sub = ClientMessage::Subscribe { events: vec!["mining_events".to_string(), "pool".to_string()] };
    assert_eq!(m.handle_message(1, &sub, 150), None);
    assert!(m.is_subscribed(1, "mining_events"));
    assert!(!m.is_subscribed(2, "mining_events"));
    assert!(!m.is_subscribed(3, "mining_events"));
    assert_eq!(m.handle_message(2, &ClientMessage::Ping, 160), Some(Reply::Pong));
    assert_eq!(m.handle_message(9, &ClientMessage::Ping, 160), None);
    assert_eq!(m.get_connection_stats(), WebSocketStats { total_connections: 2, total_subscriptions: 2 });
    let mut closed = ConnectionState::new(2, 200);
    closed.mark_disconnected();
    m.add_connection(closed);
    assert_eq!(m.get_connection_count(), 2);
    m.cleanup_connections();
    assert_eq!(m.get_connection_count(), 1);
    assert!(m.is_subscribed(1, "pool"));
    m.remove_connection(1);
    m.remove_connection(1);
    assert_eq!(m.get_connection_count(), 0);
    assert_eq!(m.get_connection_stats().total_subscriptions, 0);
}

#[test]
fn cors_accepts_any_origin_only_with_a_star() {
    let list = vec!["http://a".to_string(), "http://b".to_string()];
    assert_eq!(cors_origins(&list), CorsOrigins::List(list.clone()));
    assert_eq!(cors_origins(&vec!["http://a".to_string(), "*".to_string()]), CorsOrigins::Any);
    assert_eq!(cors_origins(&Vec::new()), CorsOrigins::List(Vec::new()));
}

#[test]
fn responses_carry_the_given_time() {
    let ok: ApiResponse<u32> = ApiResponse::success_at(5, 1_700_000_000);
    assert!(ok.success && ok.data == Some(5) && ok.error.is_none());
    assert_eq!(ok.timestamp, 1_700_000_000);
    let err: ApiResponse<u32> = ApiResponse::error_at("bad".to_string(), 42);
    assert!(!err.success && err.data.is_none());
    assert_eq!(err.error.as_deref(), Some("bad"));
    assert_eq!(err.timestamp, 42);
    let now: ApiResponse<u32> = ApiResponse::success(1);
    assert!(now.timestamp > 1_600_000_000);
}
