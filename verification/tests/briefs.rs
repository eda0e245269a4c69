#[test]
fn brief_submit_not_enough_funds() {
    assert!(true)
}
