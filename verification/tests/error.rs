use mayheap::{Error, String, Vec};

fn decoding_error() -> core::str::Utf8Error {
    let bytes = Vec::<u8, 4>::from_slice(&[b'a', 0x80]).unwrap();
    String::<4>::from_utf8(bytes).unwrap_err()
}

#[test]
fn overflow_message() {
    assert_eq!(
        Error::BufferOverflow.message(),
        "Attempted to grow a collection beyond its capacity"
    );
    assert_eq!(Error::BufferOverflow.source(), None);
}

#[test]
fn utf8_message_carries_the_decoding_error() {
    let cause = decoding_error();
    let error = Error::from(cause);
    assert_eq!(error, Error::Utf8Error(cause));
    assert_eq!(error.source(), Some(cause));
    assert_eq!(error.message(), format!("Invalid UTF-8 sequence: {}", cause));
    assert_eq!(
        error.message(),
        "Invalid UTF-8 sequence: invalid utf-8 sequence of 1 bytes from index 1"
    );
    assert_ne!(error, Error::BufferOverflow);
}
