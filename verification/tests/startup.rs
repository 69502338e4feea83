use lupyd::startup::{
    file_server_token, Constants, ServiceKind, Startup, StartupAction, FILE_SERVER_TOKEN_LENGTH,
    POOL_CONNECTIONS,
};

fn constants(api_url: &str) -> Option<Constants> {
    Constants::new(
        api_url.to_string(),
        "wss://chat.example/ws".to_string(),
        "login.example".to_string(),
        "client-1".to_string(),
    )
}

#[test]
fn test_env_vars() {
    let constants = constants("https://chat.example/api").unwrap();
    let api_url = constants.firefly_api_url();
    assert!(
        !api_url.is_empty(),
        "NEXT_PUBLIC_JS_ENV_CHAT_API_URL should not be empty"
    );
    println!("NEXT_PUBLIC_JS_ENV_CHAT_API_URL: {}", api_url);
}

#[test]
fn an_empty_api_url_is_refused() {
    assert!(constants("").is_none());
}

#[test]
fn constants_keep_what_they_were_given() {
    let constants = constants("https://chat.example/api").unwrap();
    assert_eq!(constants.firefly_api_url(), "https://chat.example/api");
    assert_eq!(constants.firefly_ws_url(), "wss://chat.example/ws");
    assert_eq!(constants.auth0_domain(), "login.example");
    assert_eq!(constants.auth0_client_id(), "client-1");
}

#[test]
fn services_come_up_in_their_order() {
    let mut startup = Startup::new();
    assert!(matches!(
        startup.begin(),
        StartupAction::Initialize(ServiceKind::Database)
    ));
    assert!(matches!(
        startup.report(Ok(())),
        StartupAction::Initialize(ServiceKind::MessageHistoryStore)
    ));
    assert!(matches!(
        startup.report(Ok(())),
        StartupAction::Initialize(ServiceKind::PushMessagingClient)
    ));
    assert!(matches!(
        startup.report(Ok(())),
        StartupAction::Initialize(ServiceKind::FileServingComponent)
    ));
    assert!(!startup.is_running());
    assert!(matches!(startup.report(Ok(())), StartupAction::LaunchBackground));
    assert!(startup.is_running());
    assert!(matches!(startup.report(Ok(())), StartupAction::Nothing));
    assert!(matches!(startup.begin(), StartupAction::Nothing));
}

#[test]
fn a_failure_ends_startup_with_its_message() {
    let mut startup = Startup::new();
    startup.begin();
    startup.report(Ok(()));
    match startup.report(Err("disk full".to_string())) {
        StartupAction::Abort(message) => {
            assert_eq!(message, "Failed to create messages store: disk full")
        }
        _ => panic!("startup went on after a failure"),
    }
    assert!(matches!(startup.report(Ok(())), StartupAction::Nothing));
    assert!(!startup.is_running());
}

#[test]
fn failure_messages_name_what_failed() {
    assert_eq!(ServiceKind::Database.failure_message("no space"), "no space");
    assert_eq!(
        ServiceKind::MessageHistoryStore.failure_message("no space"),
        "Failed to create messages store: no space"
    );
    assert_eq!(
        ServiceKind::PushMessagingClient.failure_message("refused"),
        "Failed to create firefly client: refused"
    );
    assert_eq!(ServiceKind::FileServingComponent.failure_message("denied"), "denied");
}

#[test]
fn services_know_their_files() {
    assert_eq!(ServiceKind::Database.directory(), "dbs");
    assert_eq!(ServiceKind::MessageHistoryStore.directory(), "dbs");
    assert_eq!(ServiceKind::PushMessagingClient.directory(), "dbs");
    assert_eq!(ServiceKind::FileServingComponent.directory(), "files");
    assert_eq!(ServiceKind::Database.database_file(), Some("app.db"));
    assert_eq!(
        ServiceKind::MessageHistoryStore.database_file(),
        Some("user_messages.db")
    );
    assert_eq!(ServiceKind::PushMessagingClient.database_file(), Some("firefly.db"));
    assert_eq!(ServiceKind::FileServingComponent.database_file(), None);
    assert_eq!(ServiceKind::Database.next(), Some(ServiceKind::MessageHistoryStore));
    assert_eq!(ServiceKind::FileServingComponent.next(), None);
    assert_eq!(POOL_CONNECTIONS, 5);
}

#[test]
fn the_file_server_token_is_32_letters_and_digits() {
    let token = file_server_token();
    assert_eq!(FILE_SERVER_TOKEN_LENGTH, 32);
    assert_eq!(token.chars().count(), 32);
    assert!(token.chars().all(|c| c.is_ascii_alphanumeric()));
    let other = file_server_token();
    assert_eq!(other.len(), 32);
}
