use snowflake::{
    json_string_body, parse_epoch, ConfigError, RequestMethod, ServiceResponse, SnowflakeState,
    DEFAULT_EPOCH_TEXT, DEFAULT_NODE_ID,
};

const ALPHABET: &str = "0123456789ABCDEFGHJKMNPQRSTVWXYZ";

fn default_state() -> SnowflakeState {
    let epoch = match parse_epoch(DEFAULT_EPOCH_TEXT) {
        Ok(epoch) => epoch,
        Err(_) => panic!("the default epoch text must parse"),
    };
    SnowflakeState::new(epoch, DEFAULT_NODE_ID)
}

#[test]
fn parse_epoch_accepts_rfc3339() {
    assert!(parse_epoch("2016-01-01T00:00:00Z").is_ok());
    assert!(parse_epoch("1996-12-19T16:39:57-08:00").is_ok());
}

#[test]
fn parse_epoch_rejects_malformed_text() {
    assert_eq!(parse_epoch("").err(), Some(ConfigError::InvalidEpoch));
    assert_eq!(parse_epoch("yesterday").err(), Some(ConfigError::InvalidEpoch));
    assert_eq!(parse_epoch("2016-13-01T00:00:00Z").err(), Some(ConfigError::InvalidEpoch));
}

#[test]
fn state_carries_node_id() {
    let state = default_state();
    assert_eq!(state.node_id, 1);
    assert_eq!(state.get_flake().node_id, 1);
}

#[test]
fn token_is_thirteen_alphabet_characters() {
    let state = default_state();
    let token = state.token();
    assert_eq!(token.len(), 13);
    for ch in token.chars() {
        assert!(ALPHABET.contains(ch));
    }
}

#[test]
fn successive_tokens_strictly_increase() {
    let state = default_state();
    let first = state.token();
    let second = state.token();
    assert!(first < second);
}

#[test]
fn sequence_pairs_distinct_across_calls() {
    let state = default_state();
    let mut pairs: Vec<(u16, u64)> = Vec::new();
    for _ in 0..64 {
        pairs.push(state.get_sequence());
    }
    for i in 0..pairs.len() {
        for j in 0..pairs.len() {
            if i != j {
                assert_ne!(pairs[i], pairs[j]);
            }
        }
    }
}

#[test]
fn json_body_quotes_text() {
    assert_eq!(json_string_body("0000000000800"), "\"0000000000800\"");
    assert_eq!(json_string_body(""), "\"\"");
}

#[test]
fn handle_get_returns_json_token() {
    let state = default_state();
    match state.handle(RequestMethod::Get) {
        ServiceResponse::Body(body) => {
            assert_eq!(body.len(), 15);
            assert!(body.starts_with('"'));
            assert!(body.ends_with('"'));
            for ch in body[1..14].chars() {
                assert!(ALPHABET.contains(ch));
            }
        },
        ServiceResponse::MethodNotAllowed => panic!("a retrieval request must yield a token"),
    }
}

#[test]
fn handle_non_retrieval_method_not_allowed() {
    let state = default_state();
    let methods = [
        RequestMethod::Head,
        RequestMethod::Post,
        RequestMethod::Put,
        RequestMethod::Delete,
        RequestMethod::Options,
        RequestMethod::Other,
    ];
    for method in methods {
        match state.handle(method) {
            ServiceResponse::Body(_) => panic!("a non-retrieval request must carry no body"),
            ServiceResponse::MethodNotAllowed => {},
        }
    }
}
