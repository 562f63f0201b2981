//! Error kinds, error chains, conversions of counts, and the small typed
//! constants.

use avocado_core::coll::{UpdateManyResult, UpdateOneResult};
use avocado_core::error::{ErrMsg, Error, ErrorKind, ResultExt};
use avocado_core::literal::{
    alias_at, type_flag_at, BsonType, DateTimeType, IndexType, Order, RegexOpts, TypeNames,
    DOT_NEWLINE, EXTENDED, IGNORE_CASE, LINE_ANCHOR, TYPE_ARRAY, TYPE_BINARY, TYPE_BOOL,
    TYPE_COUNT, TYPE_DATE, TYPE_INT, TYPE_NULL, TYPE_NUMBER, TYPE_OBJECT_ID, TYPE_STRING,
};
use avocado_core::schema::token::Binary64;
use avocado_core::utils::{i64_to_usize_with_msg, int_to_usize_with_msg};

#[test]
fn error_kind_descriptions() {
    let all = [
        (ErrorKind::JsonTranscoding, "JSON transcoding error"),
        (ErrorKind::BsonEncoding, "BSON encoding error"),
        (ErrorKind::BsonDecoding, "BSON decoding error"),
        (ErrorKind::BsonNumberRepr, "number not i64 nor f64"),
        (ErrorKind::MissingDocumentField, "document field not found"),
        (ErrorKind::IllTypedDocumentField, "document field of unexpected type"),
        (ErrorKind::MissingId, "missing unique identifier"),
        (ErrorKind::ObjectIdGeneration, "an ObjectID could not be generated"),
        (ErrorKind::MongoDbError, "MongoDB error"),
        (ErrorKind::MongoDbWriteException, "MongoDB write exception"),
        (ErrorKind::MongoDbBulkWriteException, "MongoDB bulk write exception"),
        (ErrorKind::IntConversionUnderflow, "integer conversion underflowed"),
        (ErrorKind::IntConversionOverflow, "integer conversion overflowed"),
        (ErrorKind::BsonSchema, "error in BSON schema"),
    ];
    for (kind, text) in all {
        assert_eq!(kind.as_str(), text);
    }
}

#[test]
fn error_new_has_no_cause() {
    let error = Error::new(ErrorKind::MissingId, "sample error message");
    assert_eq!(error.description(), "sample error message");
    assert_eq!(error.kind(), ErrorKind::MissingId);
    assert!(error.reason().is_none());
}

#[test]
fn error_with_cause_takes_over_the_kind() {
    let cause = Error::new(ErrorKind::ObjectIdGeneration, "no host name");
    let error = Error::with_cause("top-level message", cause);
    assert_eq!(error.description(), "top-level message");
    assert_eq!(error.kind(), ErrorKind::ObjectIdGeneration);
    assert_eq!(error.reason().unwrap().description(), "no host name");
    assert!(error.reason().unwrap().reason().is_none());
}

#[test]
fn result_chain() {
    let ok: Result<&str, Error> = Ok("success!");
    let ok_chained = ok.chain("dummy error message").unwrap();
    assert_eq!(ok_chained, "success!");

    let err: Result<i32, Error> = Err(Error::new(ErrorKind::MongoDbError, "chained cause"));
    let err_chained = err.chain("top-level message").unwrap_err();
    assert_eq!(err_chained.description(), "top-level message");
    assert_eq!(err_chained.kind(), ErrorKind::MongoDbError);
    assert_eq!(err_chained.reason().unwrap().description(), "chained cause");

    let err: Result<i32, Error> = Err(Error::new(ErrorKind::BsonSchema, "deep"));
    let twice = err.chain(String::from("middle")).chain("top").unwrap_err();
    assert_eq!(twice.kind(), ErrorKind::BsonSchema);
    assert_eq!(twice.reason().unwrap().description(), "middle");
    assert_eq!(twice.reason().unwrap().reason().unwrap().description(), "deep");
}

#[test]
fn err_msg_sources() {
    assert_eq!("literal".into_message(), "literal");
    assert_eq!(String::from("owned").into_message(), "owned");
}

#[test]
fn int_to_usize() {
    let negative = int_to_usize_with_msg(-1 as i32, "example value").unwrap_err();
    assert!(negative.message.contains("example value (-1) is negative"));
    assert_eq!(negative.kind(), ErrorKind::IntConversionUnderflow);

    assert_eq!(int_to_usize_with_msg(1, "example value").unwrap(), 1);
    assert_eq!(int_to_usize_with_msg(0i8, "example value").unwrap(), 0);
    assert_eq!(int_to_usize_with_msg(i16::MAX, "example value").unwrap(), 32767);

    let platform_dependent = int_to_usize_with_msg(i64::MAX, "example value");
    if usize::BITS < 64 {
        let error = platform_dependent.unwrap_err();
        assert!(error.message.contains("overflows `usize`"));
        assert_eq!(error.kind(), ErrorKind::IntConversionOverflow);
    } else {
        assert_eq!(platform_dependent.unwrap(), i64::MAX as usize);
    }
}

#[test]
fn int_to_usize_message_is_exact() {
    let error = i64_to_usize_with_msg(i64::MIN, "# of counted documents").unwrap_err();
    assert_eq!(error.message, "# of counted documents (-9223372036854775808) is negative");
    assert!(error.reason().is_none());
}

#[test]
fn update_one_result_from_counts() {
    assert_eq!(UpdateOneResult::from_raw(0, 0), UpdateOneResult { matched: false, modified: false });
    assert_eq!(UpdateOneResult::from_raw(1, 0), UpdateOneResult { matched: true, modified: false });
    assert_eq!(UpdateOneResult::from_raw(1, 1), UpdateOneResult { matched: true, modified: true });
    assert_eq!(UpdateOneResult::from_raw(-1, 7), UpdateOneResult { matched: false, modified: true });
    assert_eq!(UpdateOneResult::default(), UpdateOneResult { matched: false, modified: false });
}

#[test]
fn update_many_result_from_counts() {
    assert_eq!(
        UpdateManyResult::from_raw(3, 2),
        Ok(UpdateManyResult { num_matched: 3, num_modified: 2 })
    );
    assert_eq!(
        UpdateManyResult::from_raw(i32::MAX, 0),
        Ok(UpdateManyResult { num_matched: 2147483647, num_modified: 0 })
    );
    let error = UpdateManyResult::from_raw(-2, -3).unwrap_err();
    assert_eq!(error.kind(), ErrorKind::IntConversionUnderflow);
    assert_eq!(error.message, "# of matched documents (-2) is negative");
    let error = UpdateManyResult::from_raw(2, -3).unwrap_err();
    assert_eq!(error.message, "# of modified documents (-3) is negative");
    assert_eq!(UpdateManyResult::default(), UpdateManyResult { num_matched: 0, num_modified: 0 });
}

#[test]
fn order_numbers() {
    assert_eq!(Order::Ascending.to_i32(), 1);
    assert_eq!(Order::Descending.to_i32(), -1);
    assert_eq!(Order::default(), Order::Ascending);
    assert_eq!(Order::from_i64(1), Some(Order::Ascending));
    assert_eq!(Order::from_i64(-1), Some(Order::Descending));
    assert_eq!(Order::from_i64(0), None);
    assert_eq!(Order::from_i64(2), None);
    assert_eq!(Order::from_u64(1), Some(Order::Ascending));
    assert_eq!(Order::from_u64(0), None);
    assert_eq!(Order::from_u64(u64::MAX), None);
    let double = |x: f64| Binary64 { bits: x.to_bits() };
    assert_eq!(Order::from_binary64(double(1.0)), Some(Order::Ascending));
    assert_eq!(Order::from_binary64(double(-1.0)), Some(Order::Descending));
    assert_eq!(Order::from_binary64(double(-2.0)), None);
    assert_eq!(Order::from_binary64(double(0.0)), None);
    assert_eq!(Order::from_binary64(double(f64::NAN)), None);
}

#[test]
fn index_type_names() {
    assert_eq!(IndexType::from_name("text"), Some(IndexType::Text));
    assert_eq!(IndexType::from_name("hashed"), Some(IndexType::Hashed));
    assert_eq!(IndexType::from_name("2d"), Some(IndexType::Geo2D));
    assert_eq!(IndexType::from_name("2dsphere"), Some(IndexType::Geo2DSphere));
    assert_eq!(IndexType::from_name("geoHaystack"), Some(IndexType::GeoHaystack));
    assert_eq!(IndexType::from_name("Ascending"), None);
    assert_eq!(IndexType::from_name("ascending"), None);

    assert_eq!(IndexType::from_annotation("ascending"), Some(IndexType::Ordered(Order::Ascending)));
    assert_eq!(
        IndexType::from_annotation("descending"),
        Some(IndexType::Ordered(Order::Descending))
    );
    assert_eq!(IndexType::from_annotation("2dsphere"), Some(IndexType::Geo2DSphere));
    assert_eq!(IndexType::from_annotation("geohaystack"), None);
    assert_eq!(IndexType::from_annotation(""), None);

    assert_eq!(IndexType::Text.as_name(), Ok("text"));
    assert_eq!(IndexType::Hashed.as_name(), Ok("hashed"));
    assert_eq!(IndexType::Geo2D.as_name(), Ok("2d"));
    assert_eq!(IndexType::Geo2DSphere.as_name(), Ok("2dsphere"));
    assert_eq!(IndexType::GeoHaystack.as_name(), Ok("geoHaystack"));
    assert_eq!(IndexType::Ordered(Order::Descending).as_name(), Err(Order::Descending));
}

#[test]
fn date_time_type_names() {
    assert_eq!(DateTimeType::Date.as_str(), "date");
    assert_eq!(DateTimeType::Timestamp.as_str(), "timestamp");
    assert_eq!(DateTimeType::from_name("date"), Some(DateTimeType::Date));
    assert_eq!(DateTimeType::from_name("timestamp"), Some(DateTimeType::Timestamp));
    assert_eq!(DateTimeType::from_name("Date"), None);
}

#[test]
fn regex_option_letters() {
    assert_eq!(RegexOpts::empty().bits, 0);
    assert_eq!(RegexOpts::empty().letters(), "");
    assert_eq!(RegexOpts { bits: LINE_ANCHOR | IGNORE_CASE }.letters(), "im");
    assert_eq!(RegexOpts { bits: DOT_NEWLINE }.letters(), "s");
    assert_eq!(RegexOpts { bits: 0b1111 }.letters(), "imxs");
    // bits that stand for no option have no letter
    assert_eq!(RegexOpts { bits: 0b1111_0100 }.letters(), "x");

    assert_eq!(RegexOpts::from_letter('i'), Some(RegexOpts { bits: IGNORE_CASE }));
    assert_eq!(RegexOpts::from_letter('m'), Some(RegexOpts { bits: LINE_ANCHOR }));
    assert_eq!(RegexOpts::from_letter('x'), Some(RegexOpts { bits: EXTENDED }));
    assert_eq!(RegexOpts::from_letter('s'), Some(RegexOpts { bits: DOT_NEWLINE }));
    assert_eq!(RegexOpts::from_letter('I'), None);
    assert_eq!(RegexOpts::from_letter('g'), None);

    assert_eq!(RegexOpts::from_letters(""), Some(RegexOpts::empty()));
    assert_eq!(RegexOpts::from_letters("im"), Some(RegexOpts { bits: 3 }));
    assert_eq!(RegexOpts::from_letters("mi"), Some(RegexOpts { bits: 3 }));
    assert_eq!(RegexOpts::from_letters("sss"), Some(RegexOpts { bits: 8 }));
    assert_eq!(RegexOpts::from_letters("xsim"), Some(RegexOpts { bits: 15 }));
    assert_eq!(RegexOpts::from_letters("ig"), None);
    assert_eq!(RegexOpts::from_letters("é"), None);

    for bits in 0..16u8 {
        let options = RegexOpts { bits };
        assert_eq!(RegexOpts::from_letters(&options.letters()), Some(options));
    }
}

#[test]
fn bson_type_names() {
    assert_eq!(BsonType::default().bits, TYPE_NULL);
    assert_eq!(BsonType { bits: 0 }.names(), Vec::<&str>::new());
    assert_eq!(BsonType { bits: TYPE_OBJECT_ID }.names(), ["objectId"]);
    assert_eq!(BsonType { bits: TYPE_STRING | TYPE_NULL }.names(), ["null", "string"]);
    assert_eq!(BsonType { bits: TYPE_NUMBER }.names(), ["double", "int", "int", "decimal"]);
    assert_eq!(BsonType { bits: u16::MAX }.names(), [
        "null",
        "bool",
        "double",
        "int",
        "int",
        "decimal",
        "objectId",
        "timestamp",
        "date",
        "string",
        "regex",
        "binData",
        "array",
        "object",
        "javascript",
        "javascriptWithScope",
    ]);

    assert_eq!(BsonType { bits: 0 }.written(), None);
    assert_eq!(BsonType { bits: TYPE_DATE }.written(), Some(TypeNames::One("date")));
    assert_eq!(
        BsonType { bits: TYPE_ARRAY | TYPE_BOOL }.written(),
        Some(TypeNames::Many(vec!["bool", "array"]))
    );

    assert_eq!(BsonType::from_name("null"), Some(BsonType { bits: TYPE_NULL }));
    assert_eq!(BsonType::from_name("binData"), Some(BsonType { bits: TYPE_BINARY }));
    assert_eq!(BsonType::from_name("javascriptWithScope"), Some(BsonType { bits: 0x8000 }));
    // both integer types go by one name, which the shorter one is found by
    assert_eq!(BsonType::from_name("int"), Some(BsonType { bits: TYPE_INT }));
    assert_eq!(BsonType::from_name("long"), None);
    assert_eq!(BsonType::from_name("Null"), None);
    assert_eq!(BsonType::from_name(""), None);

    let names = |list: &[&str]| list.iter().map(|s| s.to_string()).collect::<Vec<_>>();
    assert_eq!(BsonType::from_names(&names(&[])), Some(BsonType { bits: 0 }));
    assert_eq!(
        BsonType::from_names(&names(&["string", "null", "string"])),
        Some(BsonType { bits: TYPE_STRING | TYPE_NULL })
    );
    assert_eq!(BsonType::from_names(&names(&["string", "text"])), None);
    for position in 0..TYPE_COUNT {
        assert_eq!(type_flag_at(position), 1 << position);
        let ty = BsonType { bits: type_flag_at(position) };
        assert_eq!(ty.names(), [alias_at(position)]);
    }
}
