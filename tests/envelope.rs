use bittrex::{ApiResult, Error};

#[test]
fn success_with_result_yields_result() {
    let env = ApiResult { success: true, message: String::new(), result: Some(vec![1u32, 2, 3]) };
    match env.into_result() {
        Ok(v) => assert_eq!(v, vec![1, 2, 3]),
        Err(e) => panic!("unexpected error {:?}", e),
    }
}

#[test]
fn success_ignores_message() {
    let env = ApiResult { success: true, message: String::from("note"), result: Some(42u64) };
    assert!(matches!(env.into_result(), Ok(42)));
}

#[test]
fn failure_surfaces_message() {
    let env: ApiResult<u32> = ApiResult { success: false, message: String::from("M"), result: None };
    match env.into_result() {
        Err(Error::Result(m)) => assert_eq!(m, "M"),
        other => panic!("unexpected {:?}", other),
    }
}

#[test]
fn failure_ignores_result() {
    let env = ApiResult { success: false, message: String::from("INVALID_MARKET"), result: Some(7u8) };
    match env.into_result() {
        Err(Error::Result(m)) => assert_eq!(m, "INVALID_MARKET"),
        other => panic!("unexpected {:?}", other),
    }
}

#[test]
fn failure_with_empty_message() {
    let env: ApiResult<u32> = ApiResult { success: false, message: String::new(), result: None };
    match env.into_result() {
        Err(Error::Result(m)) => assert_eq!(m, ""),
        other => panic!("unexpected {:?}", other),
    }
}

#[test]
fn success_without_result_is_api_error() {
    let env: ApiResult<u32> = ApiResult { success: true, message: String::new(), result: None };
    match env.into_result() {
        Err(Error::Api(m)) => assert_eq!(m, "invalid result in success response"),
        other => panic!("unexpected {:?}", other),
    }
}
