use tcpkali2::send_log::SendLog;

#[test]
fn empty_log_pops_nothing() {
    let mut log = SendLog::new();
    assert_eq!(log.pop(), None);
}

#[test]
fn log_is_first_in_first_out() {
    let mut log = SendLog::new();
    log.push(1);
    log.push(2);
    assert_eq!(log.pop(), Some(1));
    log.push(3);
    assert_eq!(log.pop(), Some(2));
    assert_eq!(log.pop(), Some(3));
    assert_eq!(log.pop(), None);
}
