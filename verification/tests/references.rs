use deepwell::reference::DirectedReference;
use deepwell::reference::Direction;
use deepwell::reference::Reference;
use deepwell::reference::ReferenceError;
use deepwell::text::parse_i64;

#[test]
fn reference_from_a_number_and_from_a_slug() {
    assert_eq!(Reference::from(42i64), Reference::Id(42));
    assert_eq!(Reference::from("scp-001"), Reference::Slug("scp-001"));
}

#[test]
fn reference_from_parameters() {
    assert_eq!(Reference::try_from(("slug", "scp-001")), Ok(Reference::Slug("scp-001")));
    assert_eq!(Reference::try_from(("slug", "12")), Ok(Reference::Slug("12")));
    assert_eq!(Reference::try_from(("id", "12")), Ok(Reference::Id(12)));
    assert_eq!(Reference::try_from(("id", "-7")), Ok(Reference::Id(-7)));
    assert_eq!(Reference::try_from(("id", "scp-001")), Err(ReferenceError::InvalidId));
    assert_eq!(Reference::try_from(("id", "")), Err(ReferenceError::InvalidId));
    assert_eq!(Reference::try_from(("ID", "12")), Err(ReferenceError::UnknownType));
    assert_eq!(Reference::try_from(("", "12")), Err(ReferenceError::UnknownType));
    assert_eq!(Reference::try_from(("from-id", "12")), Err(ReferenceError::UnknownType));
}

#[test]
fn directed_reference_from_parameters() {
    assert_eq!(
        DirectedReference::try_from(("from-id", "5")),
        Ok(DirectedReference { direction: Direction::From, reference: Reference::Id(5) })
    );
    assert_eq!(
        DirectedReference::try_from(("to-id", "5")),
        Ok(DirectedReference { direction: Direction::To, reference: Reference::Id(5) })
    );
    assert_eq!(
        DirectedReference::try_from(("from-slug", "main")),
        Ok(DirectedReference { direction: Direction::From, reference: Reference::Slug("main") })
    );
    assert_eq!(
        DirectedReference::try_from(("to-slug", "5")),
        Ok(DirectedReference { direction: Direction::To, reference: Reference::Slug("5") })
    );
    assert_eq!(DirectedReference::try_from(("to-id", "main")), Err(ReferenceError::InvalidId));
    assert_eq!(DirectedReference::try_from(("id", "5")), Err(ReferenceError::UnknownDirectedType));
    assert_eq!(DirectedReference::try_from(("sideways-id", "x")), Err(ReferenceError::UnknownDirectedType));
}

#[test]
fn reference_errors_have_a_status_and_words() {
    assert_eq!(ReferenceError::UnknownType.status(), 400);
    assert_eq!(ReferenceError::UnknownDirectedType.status(), 400);
    assert_eq!(ReferenceError::InvalidId.status(), 500);
    assert_eq!(ReferenceError::UnknownType.message(), "May only specify object by 'id' or 'slug'");
    assert_eq!(
        ReferenceError::UnknownDirectedType.message(),
        "May only specify object as 'from-id', 'from-slug', 'to-id', or 'to-slug'"
    );
    assert_eq!(ReferenceError::InvalidId.message(), "May only specify an id as a 64-bit integer");
}

#[test]
fn numbers_are_read_as_std_reads_them() {
    let samples = [
        "0", "7", "42", "-1", "+1", "-0", "+0", "007", "-007", "", "+", "-", "--1", "+-1", "1-", " 1", "1 ",
        "1_000", "12a", "a12", "0x10", "9223372036854775807", "9223372036854775808", "-9223372036854775808",
        "-9223372036854775809", "+9223372036854775807", "99999999999999999999999999999999999999999",
        "-99999999999999999999999999999999999999999", "00000000000000000000000000000000000000012", "١٢",
        "1.0", "1e3",
    ];
    for text in samples {
        assert_eq!(parse_i64(text), text.parse::<i64>().ok(), "{:?}", text);
    }
    assert_eq!(parse_i64("9223372036854775807"), Some(i64::MAX));
    assert_eq!(parse_i64("-9223372036854775808"), Some(i64::MIN));
    assert_eq!(parse_i64("9223372036854775808"), None);
    assert_eq!(parse_i64("-120"), Some(-120));
}
