use my_chat::console::Console;
use my_chat::error::Error;

#[test]
fn test_console_state() {
    let mut console = Console::new();
    assert_eq!(console.user_id, None);
    assert_eq!(console.send_to, None);

    console.login(17);
    assert_eq!(console.user_id, Some(17));
    assert_eq!(console.send_to, None);

    console.send_to(42);
    assert_eq!(console.user_id, Some(17));
    assert_eq!(console.send_to, Some(42));

    console.login(18);
    assert_eq!(console.user_id, Some(18));
    assert_eq!(console.send_to, Some(42));
}

#[test]
fn test_error_from_string() {
    let e = Error::from("Connection reset by peer".to_string());
    match e {
        Error::Other(text) => assert_eq!(text, "Connection reset by peer"),
        other => panic!("expected Other, got {:?}", other),
    }
}
