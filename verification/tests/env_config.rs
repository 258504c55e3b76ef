use authcore::env::Env;
use authcore::env::default_port;

fn sample() -> Env {
    Env {
        port: default_port(),
        database_url: String::from("postgres://localhost/app"),
        jwt_secret: String::from("secret"),
        jwt_token_exp: 3600,
        jwt_refresh_exp: 86400,
        media_path: String::from("media"),
    }
}

#[test]
fn default_port_is_8000() {
    assert_eq!(default_port(), 8000);
}

#[test]
fn usable_settings_become_a_token_config() {
    let cfg = sample().token_config().expect("settings are usable");
    assert_eq!(cfg.secret, "secret");
    assert_eq!(cfg.access_ttl, 3600);
    assert_eq!(cfg.refresh_ttl, 86400);
}

#[test]
fn missing_or_non_positive_values_are_refused() {
    let mut env = sample();
    env.jwt_secret = String::new();
    assert!(env.token_config().is_none());

    let mut env = sample();
    env.database_url = String::new();
    assert!(env.token_config().is_none());

    let mut env = sample();
    env.media_path = String::new();
    assert!(env.token_config().is_none());

    let mut env = sample();
    env.jwt_token_exp = 0;
    assert!(env.token_config().is_none());

    let mut env = sample();
    env.jwt_refresh_exp = -5;
    assert!(env.token_config().is_none());
}
