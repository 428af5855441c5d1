use mquickjs_rs::async_error::AsyncError;

#[test]
fn async_error_test_async_error_message() {
    let error = AsyncError::Message("test error".to_string());
    assert_eq!(error.message(), "test error");
    assert!(!error.is_js_exception());
}

#[test]
fn async_error_test_async_error_display() {
    let error = AsyncError::Message("test error".to_string());
    assert_eq!(error.to_string(), "test error");
}

#[test]
fn async_error_test_async_error_debug() {
    let error = AsyncError::Message("test error".to_string());
    let debug_str = format!("{:?}", error);
    assert!(debug_str.contains("test error"));
}

#[test]
fn async_error_test_async_error_clone() {
    let error = AsyncError::Message("test error".to_string());
    let cloned = error.clone();
    assert_eq!(error.message(), cloned.message());
}

#[test]
fn test_async_error_send() {
    fn assert_send<T: Send>() {}
    assert_send::<AsyncError>();
}

#[test]
fn test_async_error_static() {
    fn assert_static<T: 'static>() {}
    assert_static::<AsyncError>();
}

#[test]
fn async_error_test_async_error_from_string() {
    let error: AsyncError = "test error".to_string().into();
    assert_eq!(error.message(), "test error");
}

#[test]
fn async_error_test_async_error_from_str() {
    let error: AsyncError = "test error".into();
    assert_eq!(error.message(), "test error");
}

#[test]
fn js_error_source_escapes_the_message() {
    let e = AsyncError::Message("say \"hi\"\\\n\r\tend".to_string());
    assert_eq!(e.js_error_source(), "new Error(\"say \\\"hi\\\"\\\\\\n\\r\\tend\")");
    assert_eq!(AsyncError::Message(String::new()).js_error_source(), "new Error(\"\")");
    assert_eq!(AsyncError::from("plain").js_error_source(), "new Error(\"plain\")");
}
