use vstd::prelude::*;

verus! {

/// The kind of failure a decode ends with.
#[derive(Debug, Clone, Copy, PartialEq, Eq, Structural)]
pub enum ErrorKind {
    /// The bytes ran out: a read went past the end of the data or of the
    /// enclosing frame.
    IoError,
    /// The bytes of a name do not form valid text in their encoding.
    Utf16Error,
    /// An extension payload with a known signature has a version whose
    /// layout is not known.
    UnsupportedVersion,
    /// A declared frame size is smaller than the header it must hold.
    Malformed,
}

/// A decode failure: its kind and a message for people.
#[derive(Debug, Clone)]
pub struct ShellItemError {
    pub message: String,
    pub kind: ErrorKind,
}

impl ShellItemError {
    pub fn utf16_decode_error(err: String) -> (r: Self)
        ensures
            r.kind == ErrorKind::Utf16Error,
            r.message@ == err@,
    {
        ShellItemError { message: err, kind: ErrorKind::Utf16Error }
    }

    pub fn io_error() -> (r: Self)
        ensures
            r.kind == ErrorKind::IoError,
    {
        ShellItemError { message: "failed to fill whole buffer".to_string(), kind: ErrorKind::IoError }
    }

    pub fn unsupported_version() -> (r: Self)
        ensures
            r.kind == ErrorKind::UnsupportedVersion,
    {
        ShellItemError {
            message: "unhandled extension version for Beef0004".to_string(),
            kind: ErrorKind::UnsupportedVersion,
        }
    }

    pub fn malformed() -> (r: Self)
        ensures
            r.kind == ErrorKind::Malformed,
    {
        ShellItemError {
            message: "declared size is smaller than its header".to_string(),
            kind: ErrorKind::Malformed,
        }
    }
}

/// `r` is what the spec-level decoder `s` gives: the same value (by view)
/// and end position on success, the same error kind on failure.
pub open spec fn agrees_at<T: View>(
    r: Result<(T, usize), ShellItemError>,
    s: Result<(T::V, int), ErrorKind>,
) -> bool {
    match r {
        Ok((x, e)) => s == Ok::<(T::V, int), ErrorKind>((x@, e as int)),
        Err(err) => s == Err::<(T::V, int), ErrorKind>(err.kind),
    }
}

/// The decoded value of a spec-level result, without its end position.
pub open spec fn value_of<V>(s: Result<(V, int), ErrorKind>) -> Result<V, ErrorKind> {
    match s {
        Ok((v, _)) => Ok(v),
        Err(k) => Err(k),
    }
}

/// `r` is what the spec-level decoder `s` gives, for decoders that consume
/// a whole frame.
pub open spec fn agrees<T: View>(r: Result<T, ShellItemError>, s: Result<T::V, ErrorKind>) -> bool {
    match r {
        Ok(x) => s == Ok::<T::V, ErrorKind>(x@),
        Err(err) => s == Err::<T::V, ErrorKind>(err.kind),
    }
}

} // verus!
