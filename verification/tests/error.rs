use bdgt::error::{Error, ErrorKind};

#[test]
fn from_message_keeps_the_message() {
    let error = Error::from_message("No pinentry binary found");
    assert_eq!(error.kind, ErrorKind::Other);
    assert_eq!(error.message, "No pinentry binary found");
    assert_eq!(error.extra, None);
}

#[test]
fn from_message_with_extra_keeps_both() {
    let error = Error::from_message_with_extra("Value is out of range", "index: 2");
    assert_eq!(error.kind, ErrorKind::Other);
    assert_eq!(error.message, "Value is out of range");
    assert_eq!(error.extra, Some("index: 2".to_string()));
    assert_ne!(error, Error::from_message("Value is out of range"));
}

#[test]
fn errors_of_a_kind_carry_the_text_of_the_kind() {
    let kinds = [
        (ErrorKind::AlreadyInitialized, "Application's storage is already initialized"),
        (ErrorKind::NotInitialized, "Application's storage is not initialized yet"),
        (ErrorKind::NoAccounts, "No accounts exist yet"),
        (ErrorKind::NoCategories, "No categories exist yet"),
        (ErrorKind::ValueOutOfRange, "Value is out of range"),
        (ErrorKind::ParseError, "Cannot properly parse supplied arguments"),
        (ErrorKind::InvalidDate, "Invalid date"),
        (ErrorKind::InvalidInterval, "Invalid time interval"),
    ];
    for (kind, text) in kinds {
        assert_eq!(kind.text(), text);
        let error = Error::new(kind);
        assert_eq!((error.kind, error.message.as_str(), error.extra), (kind, text, None));
        let error = Error::with_extra(kind, "more");
        assert_eq!((error.kind, error.message.as_str()), (kind, text));
        assert_eq!(error.extra.as_deref(), Some("more"));
    }
}
