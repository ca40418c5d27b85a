use shared::protocal::{Request, Response};

#[test]
fn server_returns_the_number() {
    assert_eq!(Request::ReturnNumber(42).respond(), Response::Number(42));
    assert_eq!(Request::ReturnNumber(0).respond(), Response::Number(0));
    assert_eq!(Request::ReturnNumber(u32::MAX).respond(), Response::Number(u32::MAX));
}
