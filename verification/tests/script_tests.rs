use zama_core::errors::FetchError;
use zama_core::script::{status_success, validate_script};

#[test]
fn accepts_a_body_with_an_interpreter_directive() {
    assert!(validate_script("#!/bin/sh\necho hi").is_ok());
    assert!(validate_script("#!/usr/bin/env bash\nset -e").is_ok());
    assert!(validate_script("#!").is_ok());
}

#[test]
fn rejects_a_body_without_the_directive() {
    assert_eq!(validate_script("echo hi"), Err(FetchError::UntrustedContent));
    assert_eq!(validate_script(""), Err(FetchError::UntrustedContent));
    assert_eq!(validate_script("#"), Err(FetchError::UntrustedContent));
    assert_eq!(validate_script(" #!/bin/sh"), Err(FetchError::UntrustedContent));
    assert_eq!(validate_script("<html>#!"), Err(FetchError::UntrustedContent));
}

#[test]
fn success_status_is_exactly_the_2xx_range() {
    assert!(!status_success(199));
    assert!(status_success(200));
    assert!(status_success(204));
    assert!(status_success(299));
    assert!(!status_success(300));
    assert!(!status_success(404));
    assert!(!status_success(500));
}
