use autothesis::error::AppError;

#[test]
fn errors_map_to_statuses_and_public_messages() {
    let (code, msg) = AppError::BadRequest("bad input".to_string()).status_and_message();
    assert_eq!((code, msg.as_str()), (400, "bad input"));
    let (code, msg) = AppError::NotFound.status_and_message();
    assert_eq!((code, msg.as_str()), (404, "resource not found"));
    let (code, msg) = AppError::Internal("db exploded".to_string()).status_and_message();
    assert_eq!((code, msg.as_str()), (500, "internal server error"));
    assert_eq!(AppError::Internal("db exploded".to_string()).message(), "db exploded");
    assert_eq!(AppError::NotFound.message(), "resource not found");
}
