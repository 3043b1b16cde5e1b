use my_chat::time::get_current_timestamp;

#[test]
fn test_time() {
    println!("Now time is {:?}", std::time::SystemTime::now());
    let ts = get_current_timestamp();
    println!("{:?}", ts);
}
