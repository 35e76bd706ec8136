use ollama_wsock_connector::reconnect::{AfterSession, AfterWait, Outcome, Reconnect};

fn wait(reconnect: &mut Reconnect, lasted: u64) -> u64 {
    match reconnect.after_session(Outcome::Ended { lasted }) {
        AfterSession::Wait(seconds) => {
            assert_eq!(reconnect.after_wait(false), AfterWait::Dial);
            seconds
        }
        AfterSession::Exit => panic!("exit"),
    }
}

#[test]
fn waits_double_up_to_thirty_seconds() {
    let mut reconnect = Reconnect::new();
    let waits: Vec<u64> = (0..8).map(|_| wait(&mut reconnect, 0)).collect();
    assert_eq!(waits, vec![1, 2, 4, 8, 16, 30, 30, 30]);
}

#[test]
fn a_stable_session_resets_the_wait() {
    let mut reconnect = Reconnect::new();
    for _ in 0..4 {
        wait(&mut reconnect, 29);
    }
    assert_eq!(wait(&mut reconnect, 30), 1);
    assert_eq!(wait(&mut reconnect, 29), 2);
}

#[test]
fn the_user_can_stop_at_any_time() {
    let mut reconnect = Reconnect::new();
    assert_eq!(reconnect.after_session(Outcome::Interrupted), AfterSession::Exit);
    assert_eq!(
        reconnect.after_session(Outcome::Ended { lasted: 0 }),
        AfterSession::Wait(1)
    );
    assert_eq!(reconnect.after_wait(true), AfterWait::Exit);
    assert_eq!(wait(&mut reconnect, 0), 1);
}
