//! The error taxonomy: every failure is classified once, at the
//! operating-system boundary, and propagated unchanged.

use vstd::prelude::*;

verus! {

/// The failure classes surfaced to callers.
#[derive(Debug)]
pub enum ErrorKind {
    /// An unexpected failure, including unmapped system errors.
    LibBug(String),
    /// A bad path, a missing file, or malformed metadata content.
    InvalidArgument(String),
    /// Access was denied opening a device or issuing a command.
    PermissionDenied(String),
    /// A decoded field violates an expected invariant.
    CorruptedData(String),
}

/// An error of this library, carrying its class and a message.
#[derive(Debug)]
pub struct NvmeError {
    pub kind: ErrorKind,
}

/// The message carried by an error kind.
pub open spec fn spec_error_message(k: ErrorKind) -> Seq<char> {
    match k {
        ErrorKind::LibBug(m) => m@,
        ErrorKind::InvalidArgument(m) => m@,
        ErrorKind::PermissionDenied(m) => m@,
        ErrorKind::CorruptedData(m) => m@,
    }
}

impl NvmeError {
    /// The message the error was built with.
    pub fn message(&self) -> (r: &str)
        ensures
            r@ == spec_error_message(self.kind),
    {
        match &self.kind {
            ErrorKind::LibBug(m) => m.as_str(),
            ErrorKind::InvalidArgument(m) => m.as_str(),
            ErrorKind::PermissionDenied(m) => m.as_str(),
            ErrorKind::CorruptedData(m) => m.as_str(),
        }
    }

    /// A short description of the error class.
    pub fn description(&self) -> (r: &'static str)
        ensures
            self.kind is LibBug ==> r@ == "Library bug"@,
            self.kind is InvalidArgument ==> r@ == "Invalid argument"@,
            self.kind is PermissionDenied ==> r@ == "Permission denied"@,
            self.kind is CorruptedData ==> r@ == "Corrupted data from NVMe controller"@,
    {
        match &self.kind {
            ErrorKind::LibBug(_) => "Library bug",
            ErrorKind::InvalidArgument(_) => "Invalid argument",
            ErrorKind::PermissionDenied(_) => "Permission denied",
            ErrorKind::CorruptedData(_) => "Corrupted data from NVMe controller",
        }
    }
}

/// How an operating-system call failed, as the boundary reports it.
#[derive(Debug, PartialEq, Eq, Structural, Clone, Copy)]
pub enum SysErrorClass {
    /// The path named nothing.
    NotFound,
    /// Access was denied.
    AccessDenied,
    /// Any other failure.
    Other,
}

/// Classifies a system failure into the error taxonomy: a missing path
/// is an invalid argument, denied access is a permission error, and
/// everything else is an unexpected failure.
pub fn classify_sys_error(class: SysErrorClass, msg: String) -> (r: NvmeError)
    ensures
        class is NotFound ==> (r.kind matches ErrorKind::InvalidArgument(m) && m@ == msg@),
        class is AccessDenied ==> (r.kind matches ErrorKind::PermissionDenied(m) && m@ == msg@),
        class is Other ==> (r.kind matches ErrorKind::LibBug(m) && m@ == msg@),
{
    match class {
        SysErrorClass::NotFound => NvmeError { kind: ErrorKind::InvalidArgument(msg) },
        SysErrorClass::AccessDenied => NvmeError { kind: ErrorKind::PermissionDenied(msg) },
        SysErrorClass::Other => NvmeError { kind: ErrorKind::LibBug(msg) },
    }
}

} // verus!
