use vstd::prelude::*;

verus! {

/// The kinds of failure the PM codec reports.
#[derive(Debug)]
pub enum SerializationError {
    BoolError,
    I8Error,
    U8Error,
    I32Error,
    U32Error,
    I64Error,
    U64Error,
    StringError,
    BytesError,
    ByteArrayError,
    WrongSVUID,
    LimitExceeded,
    UnserializableType,
    SeqTooLong,
    Message(String),
}

/// The error type of the PM codec: a boxed `SerializationError`.
#[derive(Debug)]
pub struct Error {
    err: Box<SerializationError>,
}

impl View for Error {
    type V = SerializationError;

    closed spec fn view(&self) -> SerializationError {
        *self.err
    }
}

impl Error {
    /// Wraps an error kind.
    pub fn new(kind: SerializationError) -> (e: Error)
        ensures
            e@ == kind,
    {
        Error { err: Box::new(kind) }
    }

    /// The kind of this error.
    pub fn kind(&self) -> (k: &SerializationError)
        ensures
            *k == self@,
    {
        &self.err
    }
}

impl From<SerializationError> for Error {
    fn from(j: SerializationError) -> (e: Error) {
        Error { err: Box::new(j) }
    }
}

impl vstd::std_specs::convert::FromSpecImpl<SerializationError> for Error {
    open spec fn obeys_from_spec() -> bool {
        true
    }

    closed spec fn from_spec(j: SerializationError) -> Error {
        Error { err: Box::new(j) }
    }
}

/// The kind of I/O failure an error of the codec maps to.
pub enum IoErrorKind {
    InvalidInput,
    NotFound,
    UnexpectedEof,
    InvalidData,
    Other,
}

/// The I/O error kind that each codec error is reported as.
pub open spec fn spec_io_kind(k: SerializationError) -> IoErrorKind {
    match k {
        SerializationError::WrongSVUID => IoErrorKind::NotFound,
        SerializationError::LimitExceeded => IoErrorKind::UnexpectedEof,
        SerializationError::UnserializableType => IoErrorKind::InvalidData,
        SerializationError::Message(_) => IoErrorKind::Other,
        _ => IoErrorKind::InvalidInput,
    }
}

impl Error {
    /// The I/O error kind this error converts to.
    pub fn io_kind(&self) -> (k: IoErrorKind)
        ensures
            k == spec_io_kind(self@),
    {
        match &*self.err {
            SerializationError::BoolError => IoErrorKind::InvalidInput,
            SerializationError::I8Error => IoErrorKind::InvalidInput,
            SerializationError::I32Error => IoErrorKind::InvalidInput,
            SerializationError::U32Error => IoErrorKind::InvalidInput,
            SerializationError::I64Error => IoErrorKind::InvalidInput,
            SerializationError::U64Error => IoErrorKind::InvalidInput,
            SerializationError::StringError => IoErrorKind::InvalidInput,
            SerializationError::BytesError => IoErrorKind::InvalidInput,
            SerializationError::ByteArrayError => IoErrorKind::InvalidInput,
            SerializationError::U8Error => IoErrorKind::InvalidInput,
            SerializationError::WrongSVUID => IoErrorKind::NotFound,
            SerializationError::LimitExceeded => IoErrorKind::UnexpectedEof,
            SerializationError::UnserializableType => IoErrorKind::InvalidData,
            SerializationError::SeqTooLong => IoErrorKind::InvalidInput,
            SerializationError::Message(_) => IoErrorKind::Other,
        }
    }
}

impl SerializationError {
    /// The human-readable description of each error kind.
    pub fn description(&self) -> (s: &str)
        ensures
            s@ == match self {
                SerializationError::BoolError => "failed to (de)serialize bool"@,
                SerializationError::I8Error => "failed to (de)serialize i8"@,
                SerializationError::U8Error => "failed to (de)serialize u8"@,
                SerializationError::I32Error => "failed to (de)serialize i32"@,
                SerializationError::U32Error => "failed to (de)serialize u32"@,
                SerializationError::I64Error => "failed to (de)serialize i64"@,
                SerializationError::U64Error => "failed to (de)serialize u64"@,
                SerializationError::StringError => "failed to (de)serialize String"@,
                SerializationError::BytesError => "failed to (de)serialize bytes"@,
                SerializationError::ByteArrayError => "failed to (de)serialize byte array"@,
                SerializationError::WrongSVUID => "wrong SVUID"@,
                SerializationError::UnserializableType => "the type is un(de)serializable"@,
                SerializationError::LimitExceeded => "buffer limit exceeded"@,
                SerializationError::SeqTooLong => "sequence too long"@,
                SerializationError::Message(m) => m@,
            },
    {
        match self {
            SerializationError::BoolError => "failed to (de)serialize bool",
            SerializationError::I8Error => "failed to (de)serialize i8",
            SerializationError::U8Error => "failed to (de)serialize u8",
            SerializationError::I32Error => "failed to (de)serialize i32",
            SerializationError::U32Error => "failed to (de)serialize u32",
            SerializationError::I64Error => "failed to (de)serialize i64",
            SerializationError::U64Error => "failed to (de)serialize u64",
            SerializationError::StringError => "failed to (de)serialize String",
            SerializationError::BytesError => "failed to (de)serialize bytes",
            SerializationError::ByteArrayError => "failed to (de)serialize byte array",
            SerializationError::WrongSVUID => "wrong SVUID",
            SerializationError::UnserializableType => "the type is un(de)serializable",
            SerializationError::LimitExceeded => "buffer limit exceeded",
            SerializationError::SeqTooLong => "sequence too long",
            SerializationError::Message(s) => s.as_str(),
        }
    }
}

} // verus!
