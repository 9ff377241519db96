use moray::rpc::MorayError;

#[test]
fn placeholder() {
    assert_eq!(1, 1);
}

#[test]
fn service_error_etag_conflict_is_recognised() {
    let text = String::from("EtagConflictError: etag conflict: expected abc, got def");
    assert_eq!(
        MorayError::from_service_message(text.clone()),
        MorayError::EtagConflict(text)
    );
}

#[test]
fn service_error_other_is_transport() {
    let text = String::from("ObjectNotFoundError: key does not exist");
    assert_eq!(
        MorayError::from_service_message(text.clone()),
        MorayError::Transport(text)
    );
    let short = String::from("Etag");
    assert_eq!(
        MorayError::from_service_message(short.clone()),
        MorayError::Transport(short)
    );
}
