use rtsp_factory::clients::{client_joined, client_left, stream_wanted};

#[test]
fn clients_are_counted() {
    assert_eq!(client_joined(0), 1);
    assert_eq!(client_joined(41), 42);
    assert_eq!(client_left(42), 41);
    assert_eq!(client_left(client_joined(7)), 7);
}

#[test]
fn the_count_never_falls_below_zero() {
    assert_eq!(client_left(0), 0);
}

#[test]
fn a_stream_is_wanted_by_any_client() {
    assert!(!stream_wanted(0));
    assert!(stream_wanted(1));
    assert!(stream_wanted(usize::MAX));
}
