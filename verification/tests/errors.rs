use resources::{CantGetResource, InvalidBorrow, NoSuchResource};

#[test]
fn error_messages_name_the_failure() {
    assert_eq!(NoSuchResource.message(), "no such resource");
    assert_eq!(InvalidBorrow::Mutable.message(), "cannot borrow mutably");
    assert_eq!(InvalidBorrow::Immutable.message(), "cannot borrow immutably");
    assert_eq!(
        CantGetResource::NoSuchResource(NoSuchResource).message(),
        "no such resource"
    );
    assert_eq!(
        CantGetResource::InvalidBorrow(InvalidBorrow::Mutable).message(),
        "cannot borrow mutably"
    );
    assert_eq!(
        CantGetResource::InvalidBorrow(InvalidBorrow::Immutable).message(),
        "cannot borrow immutably"
    );
}

#[test]
fn conversions_tag_the_combined_error() {
    assert_eq!(
        CantGetResource::from(NoSuchResource),
        CantGetResource::NoSuchResource(NoSuchResource)
    );
    assert_eq!(
        CantGetResource::from(InvalidBorrow::Mutable),
        CantGetResource::InvalidBorrow(InvalidBorrow::Mutable)
    );
    assert_eq!(
        CantGetResource::from(InvalidBorrow::Immutable),
        CantGetResource::InvalidBorrow(InvalidBorrow::Immutable)
    );
}

#[test]
fn errors_discriminate_structurally() {
    let missing = CantGetResource::NoSuchResource(NoSuchResource);
    let contended = CantGetResource::InvalidBorrow(InvalidBorrow::Immutable);
    assert_ne!(missing, contended);
    assert_ne!(InvalidBorrow::Mutable, InvalidBorrow::Immutable);
    match contended {
        CantGetResource::InvalidBorrow(kind) => assert_eq!(kind, InvalidBorrow::Immutable),
        CantGetResource::NoSuchResource(_) => panic!("a borrow failure is not a missing slot"),
    }
}
