use battleship::messaging::mqtt::{Mosquitto, MosquittoArc, Order};
use battleship::messaging::topic::expression;
use battleship::messaging::translate::{
    decrypt, encrypt, serialize, sign, verify, TranslationError,
};

fn data() -> String {
    let mut object = serde_json::Map::new();
    object.insert("a".to_string(), serde_json::Value::String("b".to_string()));
    object.insert("c".to_string(), serde_json::Value::String("d".to_string()));
    serde_json::to_string(&serde_json::Value::Object(object)).expect("Unable to serialize!")
}

fn key() -> String {
    String::from("cockadoodledoo")
}

/// Takes an envelope apart as a reader of it does: the data serialized once
/// more, and the signature.
fn opened(envelope: &str) -> (String, String) {
    let value: serde_json::Value = serde_json::from_str(envelope).expect("an object");
    let data = serde_json::to_string(&value["data"]).expect("Unable to serialize!");
    let signature = value["sign"].as_str().expect("a string").to_string();
    (data, signature)
}

#[test]
fn test_successful_crypt() {
    let json_data = data();
    let decrypted = decrypt(&encrypt(&json_data, &key()), &key()).expect("Unable to decrypt!");
    assert_eq!(json_data, decrypted);
}

#[test]
fn test_unsuccessful_crypt() {
    let json_data = data();
    let decrypted = decrypt(&encrypt(&json_data, &key()), "Cockadoodlesploo");
    assert!(match decrypted {
        Ok(_) => false,
        Err(error) => match error {
            TranslationError::Argon2Error(_) => true,
            _ => false,
        },
    });
}

#[test]
fn test_successful_sign() {
    let json_data = sign(&data(), &key());
    let (read, signature) = opened(&json_data);
    assert_eq!(read, data());
    let verified = verify(&read, &signature, &key());
    assert!(verified.is_ok());
}

#[test]
fn test_unsuccessful_sign() {
    let json_data = sign(&data(), &key());
    let (read, signature) = opened(&json_data);
    let verified = verify(&read, &signature, "Cockadoodlesploo");
    assert!(match verified {
        Ok(_) => false,
        Err(error) => match error {
            TranslationError::VerificationError(_) => true,
            _ => false,
        },
    });
}

#[test]
fn sealing_differs_from_call_to_call() {
    let one = encrypt("x", "k");
    let other = encrypt("x", "k");
    assert_ne!(one, other);
    assert_ne!(one, "x");
    assert_eq!(decrypt(&one, "k").unwrap(), "x");
    assert_eq!(decrypt(&other, "k").unwrap(), "x");
    assert_eq!(decrypt(&encrypt("", "k"), "k").unwrap(), "");
    assert_eq!(decrypt(&encrypt("grüße ↓", "schlüssel"), "schlüssel").unwrap(), "grüße ↓");
    // 56 bytes of salt, nonce and tag before one byte of data, in base64
    assert_eq!(one.len(), 76);
}

#[test]
fn decrypt_tells_its_errors_apart() {
    assert!(matches!(decrypt("not base64!", "k"), Err(TranslationError::Base64Error(_))));
    assert!(matches!(decrypt("QUJD", "k"), Err(TranslationError::Argon2Error(_))));
    let sealed = encrypt("x", "k");
    assert!(matches!(decrypt(&sealed, "K"), Err(TranslationError::Argon2Error(_))));
}

#[test]
fn verify_tells_why_it_fails() {
    let signature = encrypt("{\"a\":1}", "k");
    assert!(verify("{\"a\":1}", &signature, "k").is_ok());
    match verify("{\"a\":2}", &signature, "k") {
        Err(TranslationError::VerificationError(text)) => {
            assert_eq!(text, "Decrypted sign {\"a\":1} does not equal the data: {\"a\":2}")
        }
        other => panic!("unexpected: {:?}", other),
    }
    match verify("{\"a\":1}", "QUJD", "k") {
        Err(TranslationError::VerificationError(text)) => {
            assert_eq!(text, "Key k incorrect for decrypting sign QUJD")
        }
        other => panic!("unexpected: {:?}", other),
    }
}

#[test]
fn envelope_holds_data_and_signature() {
    let envelope = sign("[1,2]", "k");
    assert!(envelope.starts_with("{\"data\":[1,2],\"sign\":\""));
    assert!(envelope.ends_with("\"}"));
    let (read, signature) = opened(&envelope);
    assert_eq!(read, "[1,2]");
    assert_eq!(decrypt(&signature, "k").unwrap(), "[1,2]");
}

#[test]
fn names_are_written_as_a_json_array() {
    assert_eq!(serialize(&vec![]).unwrap(), "[]");
    assert_eq!(
        serialize(&vec!["alice".to_string(), "b\"ob".to_string()]).unwrap(),
        "[\"alice\",\"b\\\"ob\"]"
    );
}

#[test]
fn patterns_become_anchored_expressions() {
    assert_eq!(expression("a/+/c"), "^a/[^/]+/c$");
    assert_eq!(expression("a/#"), "^a/.+$");
    assert_eq!(expression(""), "^$");
    assert_eq!(expression("/t1/game/request"), "^/t1/game/request$");
    assert_eq!(expression("a.b(c)|d-e~f&g"), "^a\\.b\\(c\\)\\|d\\-e\\~f\\&g$");
    assert_eq!(expression("\\*?[]{}^$"), "^\\\\\\*\\?\\[\\]\\{\\}\\^\\$$");
    assert_eq!(expression("ü/+"), "^ü/[^/]+$");
}

/// What is due for a topic under a single pattern.
fn taken(pattern: &str, topic: &str) -> bool {
    let mut mqtt: Mosquitto<u32> = Mosquitto::new();
    mqtt.subscribe(pattern, 7);
    assert_eq!(mqtt.control(), Some(Order::Subscribe(pattern.to_string())));
    mqtt.receive(topic.to_string(), b"payload".to_vec());
    match mqtt.dispatch() {
        Some((at, payload, handlers)) => {
            assert_eq!(at, topic);
            assert_eq!(payload, "payload");
            assert!(handlers.is_empty() || handlers == [7]);
            !handlers.is_empty()
        }
        None => panic!("a message waits"),
    }
}

#[test]
fn single_level_wildcard() {
    assert!(taken("a/+/c", "a/b/c"));
    assert!(taken("a/+/c", "a/xyz/c"));
    assert!(!taken("a/+/c", "a/b/d"));
    assert!(!taken("a/+/c", "a/b/c/d"));
    assert!(!taken("a/+/c", "a//c"));
    assert!(!taken("a/+/c", "xa/b/c"));
}

#[test]
fn multi_level_wildcard() {
    assert!(taken("a/#", "a/b"));
    assert!(taken("a/#", "a/b/c"));
    assert!(!taken("a/#", "a"));
    assert!(!taken("a/#", "a/"));
}

#[test]
fn other_characters_stand_for_themselves() {
    assert!(taken("a.b", "a.b"));
    assert!(!taken("a.b", "axb"));
    assert!(taken("/t1/players/alice/fire", "/t1/players/alice/fire"));
    assert!(!taken("/t1/players/alice/fire", "/t1/players/alice/fire2"));
    assert!(taken("a/+", "a/+"));
    assert!(taken("(", "("));
}

#[test]
fn await_topic_unsubscribes_after_first_match() {
    let mut mqtt: MosquittoArc<u32> = MosquittoArc::new();
    mqtt.await_topic("a/+", 1);
    assert_eq!(mqtt.control(), Some(Order::Subscribe("a/+".to_string())));
    mqtt.receive("a/b".to_string(), b"first".to_vec());
    mqtt.receive("a/c".to_string(), b"second".to_vec());
    let (topic, payload, handlers) = mqtt.dispatch().expect("a message waits");
    assert_eq!(handlers, [1]);
    let answer = mqtt.answer_topic("a/+", (topic, payload));
    assert_eq!(answer, ("a/b".to_string(), "first".to_string()));
    assert_eq!(mqtt.control(), Some(Order::Unsubscribe("a/+".to_string())));
    let (topic, payload, handlers) = mqtt.dispatch().expect("a message waits");
    assert_eq!((topic.as_str(), payload.as_str()), ("a/c", "second"));
    assert!(handlers.is_empty());
    assert_eq!(mqtt.dispatch(), None);
}

#[test]
fn await_response_publishes_first() {
    let mut mqtt: Mosquitto<u32> = Mosquitto::new();
    mqtt.await_response("/t/game/request", "{}", "/t/players/list", 3);
    assert_eq!(mqtt.pending(), 2);
    assert_eq!(
        mqtt.control(),
        Some(Order::Publish("/t/game/request".to_string(), "{}".to_string(), false))
    );
    assert_eq!(mqtt.control(), Some(Order::Subscribe("/t/players/list".to_string())));
    assert_eq!(mqtt.control(), None);
}

#[test]
fn callbacks_fire_in_order_of_registration() {
    let mut mqtt: Mosquitto<u32> = Mosquitto::new();
    mqtt.subscribe("a/#", 1);
    mqtt.subscribe("a/+", 2);
    mqtt.subscribe("a/#", 3);
    mqtt.subscribe("a/b", 4);
    mqtt.subscribe("b/#", 5);
    for _ in 0..5 {
        assert!(mqtt.control().is_some());
    }
    mqtt.receive("a/b".to_string(), b"x".to_vec());
    assert_eq!(mqtt.dispatch().map(|event| event.2), Some(vec![1, 3, 2, 4]));
    mqtt.unsubscribe("a/#");
    assert_eq!(mqtt.control(), Some(Order::Unsubscribe("a/#".to_string())));
    mqtt.receive("a/b".to_string(), b"x".to_vec());
    assert_eq!(mqtt.dispatch().map(|event| event.2), Some(vec![2, 4]));
    mqtt.unsubscribe("never/subscribed");
    assert_eq!(mqtt.control(), Some(Order::Unsubscribe("never/subscribed".to_string())));
    mqtt.receive("a/b".to_string(), b"x".to_vec());
    assert_eq!(mqtt.dispatch().map(|event| event.2), Some(vec![2, 4]));
}

#[test]
fn requests_become_orders_in_turn() {
    let mut mqtt: Mosquitto<u32> = Mosquitto::new();
    mqtt.publish("t", "p");
    mqtt.retain("t", "kept");
    mqtt.clear("t");
    assert_eq!(mqtt.pending(), 3);
    assert_eq!(mqtt.control(), Some(Order::Publish("t".to_string(), "p".to_string(), false)));
    assert_eq!(mqtt.control(), Some(Order::Publish("t".to_string(), "kept".to_string(), true)));
    assert_eq!(mqtt.control(), Some(Order::Publish("t".to_string(), String::new(), true)));
    assert_eq!(mqtt.control(), None);
}

#[test]
fn payloads_that_are_no_text_are_dropped() {
    let mut mqtt: Mosquitto<u32> = Mosquitto::new();
    mqtt.subscribe("t", 1);
    mqtt.control();
    mqtt.receive("t".to_string(), vec![0xff, 0xfe]);
    assert_eq!(mqtt.dispatch(), None);
    mqtt.receive("t".to_string(), "grüße".as_bytes().to_vec());
    assert_eq!(mqtt.dispatch(), Some(("t".to_string(), "grüße".to_string(), vec![1])));
}

#[test]
fn a_stopped_adapter_does_nothing() {
    let mut mqtt: Mosquitto<u32> = Mosquitto::new();
    assert!(mqtt.is_running());
    mqtt.subscribe("t", 1);
    mqtt.control();
    mqtt.receive("t".to_string(), b"x".to_vec());
    mqtt.publish("t", "p");
    mqtt.stop();
    assert!(!mqtt.is_running());
    assert_eq!(mqtt.control(), None);
    assert_eq!(mqtt.dispatch(), None);
    mqtt.receive("t".to_string(), b"y".to_vec());
    assert_eq!(mqtt.pending(), 1);
}

#[test]
fn sealed_bytes_that_are_no_text_are_told_apart() {
    let sealed = base64::encode(simplecrypt::encrypt(&[0xff, 0xfe], b"k"));
    assert!(matches!(decrypt(&sealed, "k"), Err(TranslationError::Utf8Error(_))));
    let text = base64::encode(simplecrypt::encrypt("grüße".as_bytes(), b"k"));
    assert_eq!(decrypt(&text, "k").unwrap(), "grüße");
    // what this library seals, the outside crates open
    let opened = simplecrypt::decrypt(&base64::decode(encrypt("x", "k")).unwrap(), b"k");
    assert_eq!(opened, Ok(b"x".to_vec()));
}
