//! Errors of database operations: a machine-readable kind, a message, and
//! the chain of causes.

use vstd::prelude::*;

verus! {

/// A structured, machine-readable error kind.
#[derive(Debug, Clone, Copy, PartialEq, Eq, Structural, Hash)]
pub enum ErrorKind {
    /// A conversion between JSON and a typed value failed.
    JsonTranscoding,
    /// A typed value could not be converted to BSON.
    BsonEncoding,
    /// BSON could not be converted to a typed value.
    BsonDecoding,
    /// A number cannot be represented in BSON.
    BsonNumberRepr,
    /// The document has no field with the given key.
    MissingDocumentField,
    /// The document has the field, with a value of another type.
    IllTypedDocumentField,
    /// An identifier is missing from an entity or from a response.
    MissingId,
    /// An object identifier could not be generated.
    ObjectIdGeneration,
    /// An error of the database driver.
    MongoDbError,
    /// An error of the database for a single write.
    MongoDbWriteException,
    /// An error of the database for a bulk write.
    MongoDbBulkWriteException,
    /// A negative integer was to be converted to a `usize`.
    IntConversionUnderflow,
    /// An integer too large was to be converted to a `usize`.
    IntConversionOverflow,
    /// An error in the schema of a type.
    BsonSchema,
}

impl ErrorKind {
    /// The human-readable description of the kind.
    pub open spec fn text(self) -> Seq<char> {
        match self {
            ErrorKind::JsonTranscoding => "JSON transcoding error"@,
            ErrorKind::BsonEncoding => "BSON encoding error"@,
            ErrorKind::BsonDecoding => "BSON decoding error"@,
            ErrorKind::BsonNumberRepr => "number not i64 nor f64"@,
            ErrorKind::MissingDocumentField => "document field not found"@,
            ErrorKind::IllTypedDocumentField => "document field of unexpected type"@,
            ErrorKind::MissingId => "missing unique identifier"@,
            ErrorKind::ObjectIdGeneration => "an ObjectID could not be generated"@,
            ErrorKind::MongoDbError => "MongoDB error"@,
            ErrorKind::MongoDbWriteException => "MongoDB write exception"@,
            ErrorKind::MongoDbBulkWriteException => "MongoDB bulk write exception"@,
            ErrorKind::IntConversionUnderflow => "integer conversion underflowed"@,
            ErrorKind::IntConversionOverflow => "integer conversion overflowed"@,
            ErrorKind::BsonSchema => "error in BSON schema"@,
        }
    }

    /// The human-readable description of the kind.
    pub fn as_str(self) -> (r: &'static str)
        ensures
            r@ == self.text(),
    {
        match self {
            ErrorKind::JsonTranscoding => "JSON transcoding error",
            ErrorKind::BsonEncoding => "BSON encoding error",
            ErrorKind::BsonDecoding => "BSON decoding error",
            ErrorKind::BsonNumberRepr => "number not i64 nor f64",
            ErrorKind::MissingDocumentField => "document field not found",
            ErrorKind::IllTypedDocumentField => "document field of unexpected type",
            ErrorKind::MissingId => "missing unique identifier",
            ErrorKind::ObjectIdGeneration => "an ObjectID could not be generated",
            ErrorKind::MongoDbError => "MongoDB error",
            ErrorKind::MongoDbWriteException => "MongoDB write exception",
            ErrorKind::MongoDbBulkWriteException => "MongoDB bulk write exception",
            ErrorKind::IntConversionUnderflow => "integer conversion underflowed",
            ErrorKind::IntConversionOverflow => "integer conversion overflowed",
            ErrorKind::BsonSchema => "error in BSON schema",
        }
    }
}

/// An error of a database operation.
#[derive(Debug, PartialEq, Eq, Hash)]
pub struct Error {
    /// The kind: that of the deepest cause.
    pub kind: ErrorKind,
    /// The human-readable description.
    pub message: String,
    /// The error that led to this one, if any.
    pub cause: Option<Box<Error>>,
}

impl Error {
    /// How many errors the chain of causes holds, this one included.
    pub open spec fn depth(self) -> nat
        decreases self,
    {
        match self.cause {
            Some(cause) => 1 + cause.depth(),
            None => 1,
        }
    }

    /// An error of the given kind with the given message and no cause.
    pub fn new(kind: ErrorKind, message: &str) -> (r: Error)
        ensures
            r.kind == kind,
            r.message@ == message@,
            r.cause is None,
    {
        Error { kind, message: String::from_str(message), cause: None }
    }

    /// An error with the given message on top of its cause, whose kind it
    /// takes over.
    pub fn with_cause(message: &str, cause: Error) -> (r: Error)
        ensures
            r.kind == cause.kind,
            r.message@ == message@,
            r.cause == Some(Box::new(cause)),
            r.depth() == cause.depth() + 1,
    {
        let kind = cause.kind;
        Error { kind, message: String::from_str(message), cause: Some(Box::new(cause)) }
    }

    /// The kind of the error.
    pub fn kind(&self) -> (r: ErrorKind)
        ensures
            r == self.kind,
    {
        self.kind
    }

    /// The message of the error.
    pub fn description(&self) -> (r: &str)
        ensures
            r@ == self.message@,
    {
        self.message.as_str()
    }

    /// The error that led to this one, if any.
    pub fn reason(&self) -> (r: Option<&Error>)
        ensures
            match r {
                Some(cause) => self.cause == Some(Box::new(*cause)),
                None => self.cause is None,
            },
    {
        match &self.cause {
            Some(cause) => Some(&**cause),
            None => None,
        }
    }
}

/// Values that can act as an error message.
pub trait ErrMsg: Sized {
    /// The message that the value stands for.
    spec fn text(self) -> Seq<char>;

    /// Converts the value to an error message.
    fn into_message(self) -> (r: String)
        ensures
            r@ == self.text(),
    ;
}

impl<'a> ErrMsg for &'a str {
    open spec fn text(self) -> Seq<char> {
        self@
    }

    fn into_message(self) -> (r: String) {
        String::from_str(self)
    }
}

impl ErrMsg for String {
    open spec fn text(self) -> Seq<char> {
        self@
    }

    fn into_message(self) -> (r: String) {
        self
    }
}

/// Propagation of errors up the call stack.
pub trait ResultExt<T>: Sized {
    /// The result as a success or an error of this library.
    spec fn outcome(self) -> Result<T, Error>;

    /// Puts an error with the given message on top of the error of the
    /// result, if it is one; a success passes unchanged.
    fn chain<M: ErrMsg>(self, message: M) -> (r: Result<T, Error>)
        ensures
            match self.outcome() {
                Ok(v) => r == Ok::<T, Error>(v),
                Err(cause) => {
                    &&& r matches Err(e)
                    &&& e.kind == cause.kind
                    &&& e.message@ == message.text()
                    &&& e.cause == Some(Box::new(cause))
                },
            },
    ;
}

impl<T> ResultExt<T> for Result<T, Error> {
    open spec fn outcome(self) -> Result<T, Error> {
        self
    }

    fn chain<M: ErrMsg>(self, message: M) -> (r: Result<T, Error>) {
        match self {
            Ok(v) => Ok(v),
            Err(cause) => {
                let text = message.into_message();
                Err(Error::with_cause(text.as_str(), cause))
            },
        }
    }
}

} // verus!
