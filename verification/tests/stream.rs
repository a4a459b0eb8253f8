use crosstalk::stream::{assemble, StreamError};

#[test]
fn assemble_concatenates_in_delivery_order() {
    let frags = vec!["Hi".to_owned(), " ".to_owned(), "there".to_owned()];
    assert_eq!(assemble(&frags), "Hi there");
}

#[test]
fn assemble_of_nothing_is_empty() {
    let frags: Vec<String> = Vec::new();
    assert_eq!(assemble(&frags), "");
}

#[test]
fn assemble_keeps_single_fragment() {
    let frags = vec!["alone".to_owned()];
    assert_eq!(assemble(&frags), "alone");
}

#[test]
fn describe_classifies_every_failure() {
    assert_eq!(StreamError::Auth.describe(), "authentication failed");
    assert_eq!(
        StreamError::RateLimited { retry_after: Some(30) }.describe(),
        "rate limited by the provider"
    );
    assert_eq!(
        StreamError::InvalidRequest.describe(),
        "the provider rejected the request as invalid"
    );
    assert_eq!(
        StreamError::Transport.describe(),
        "network failure while talking to the provider"
    );
    assert_eq!(
        StreamError::Provider { message: "boom".to_owned() }.describe(),
        "the provider reported an error"
    );
}

#[test]
fn retry_hint_survives_only_rate_limiting() {
    assert_eq!(
        StreamError::RateLimited { retry_after: Some(30) }.retry_after(),
        Some(30)
    );
    assert_eq!(StreamError::RateLimited { retry_after: None }.retry_after(), None);
    assert_eq!(StreamError::Transport.retry_after(), None);
}
