use voicedrop_core::ping;

#[test]
fn ping_returns_expected_text() {
    assert_eq!(ping(), "pong from voicedrop-core");
}
