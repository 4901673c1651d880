use either::Either;
use kube_client_ext::helper::{ignore_not_found, not_found_ok, Error, Status};

fn status(code: u16, reason: &str) -> Status {
    Status { code, reason: reason.to_string(), message: "deployments \"web\" not found".to_string() }
}

#[test]
fn a_missing_object_becomes_an_answer() {
    let answer = not_found_ok::<(), String>(Error::Api(status(404, "NotFound")));
    match answer {
        Ok(Either::Right(status)) => {
            assert_eq!(status.code, 404);
            assert_eq!(status.reason, "NotFound");
            assert_eq!(status.message, "deployments \"web\" not found");
        },
        other => panic!("{:?}", other),
    }
}

#[test]
fn the_reason_decides_not_the_code() {
    assert!(status(0, "NotFound").is_not_found());
    assert!(!status(404, "").is_not_found());
    assert!(!status(404, "notfound").is_not_found());
    assert!(not_found_ok::<(), String>(Error::Api(status(0, "NotFound"))).is_ok());
    match not_found_ok::<(), String>(Error::Api(status(404, ""))) {
        Err(Error::Api(status)) => assert_eq!(status.code, 404),
        other => panic!("{:?}", other),
    }
}

#[test]
fn another_refusal_stays_an_error() {
    match not_found_ok::<(), String>(Error::Api(status(409, "Conflict"))) {
        Err(Error::Api(status)) => {
            assert_eq!(status.code, 409);
            assert_eq!(status.reason, "Conflict");
        },
        other => panic!("{:?}", other),
    }
}

#[test]
fn another_error_stays_as_it_is() {
    match not_found_ok::<(), String>(Error::Other("connection reset".to_string())) {
        Err(Error::Other(error)) => assert_eq!(error, "connection reset"),
        other => panic!("{:?}", other),
    }
}

#[test]
fn the_former_name_does_the_same() {
    assert!(matches!(
        ignore_not_found::<u8, String>(Error::Api(status(404, "NotFound"))),
        Ok(Either::Right(_))
    ));
    assert!(matches!(
        ignore_not_found::<u8, String>(Error::Api(status(403, "Forbidden"))),
        Err(Error::Api(_))
    ));
    assert!(matches!(
        ignore_not_found::<u8, String>(Error::Other("timeout".to_string())),
        Err(Error::Other(_))
    ));
}
