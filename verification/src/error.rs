//! Protocol error codes, the reasons for which a datagram is refused, and the
//! classes of storage failure that a session reports to its peer.

use vstd::prelude::*;

verus! {

/// The error codes that an ERROR packet can carry.
#[derive(Debug, Clone, Copy, PartialEq, Eq, Structural)]
pub enum TftpError {
    Others,
    FileNotFound,
    AccessViolation,
    DiskNoSpace,
    IllegalTftpOp,
    UnknownTid,
    FileExists,
    NoSuchUser,
}

impl TftpError {
    /// The error that a wire code stands for, if any.
    pub open spec fn spec_from_u16(x: u16) -> Option<TftpError> {
        if x == 0 {
            Some(TftpError::Others)
        } else if x == 1 {
            Some(TftpError::FileNotFound)
        } else if x == 2 {
            Some(TftpError::AccessViolation)
        } else if x == 3 {
            Some(TftpError::DiskNoSpace)
        } else if x == 4 {
            Some(TftpError::IllegalTftpOp)
        } else if x == 5 {
            Some(TftpError::UnknownTid)
        } else if x == 6 {
            Some(TftpError::FileExists)
        } else if x == 7 {
            Some(TftpError::NoSuchUser)
        } else {
            None
        }
    }

    /// The wire code of an error.
    pub open spec fn spec_error_code(self) -> u16 {
        match self {
            TftpError::Others => 0,
            TftpError::FileNotFound => 1,
            TftpError::AccessViolation => 2,
            TftpError::DiskNoSpace => 3,
            TftpError::IllegalTftpOp => 4,
            TftpError::UnknownTid => 5,
            TftpError::FileExists => 6,
            TftpError::NoSuchUser => 7,
        }
    }

    /// The text under which an error is logged.
    pub open spec fn spec_name(self) -> Seq<char> {
        match self {
            TftpError::Others => "TftpError::Others"@,
            TftpError::FileNotFound => "TftpError::FileNotFound"@,
            TftpError::AccessViolation => "TftpError::AccessViolation"@,
            TftpError::DiskNoSpace => "TftpError::DiskNoSpace"@,
            TftpError::IllegalTftpOp => "TftpError::IllegalTftpOp"@,
            TftpError::UnknownTid => "TftpError::UnknownTid"@,
            TftpError::FileExists => "TftpError::FileExists"@,
            TftpError::NoSuchUser => "TftpError::NoSuchUser"@,
        }
    }

    pub fn from_u16(x: u16) -> (res: Option<TftpError>)
        ensures
            res == Self::spec_from_u16(x),
    {
        match x {
            0 => Some(TftpError::Others),
            1 => Some(TftpError::FileNotFound),
            2 => Some(TftpError::AccessViolation),
            3 => Some(TftpError::DiskNoSpace),
            4 => Some(TftpError::IllegalTftpOp),
            5 => Some(TftpError::UnknownTid),
            6 => Some(TftpError::FileExists),
            7 => Some(TftpError::NoSuchUser),
            _ => None,
        }
    }

    pub fn error_code(&self) -> (code: u16)
        ensures
            code == self.spec_error_code(),
    {
        match self {
            TftpError::Others => 0x0_u16,
            TftpError::FileNotFound => 0x1_u16,
            TftpError::AccessViolation => 0x2_u16,
            TftpError::DiskNoSpace => 0x3_u16,
            TftpError::IllegalTftpOp => 0x4_u16,
            TftpError::UnknownTid => 0x5_u16,
            TftpError::FileExists => 0x6_u16,
            TftpError::NoSuchUser => 0x7_u16,
        }
    }

    /// The text under which the error is logged.
    pub fn name(&self) -> (res: String)
        ensures
            res@ == self.spec_name(),
    {
        match self {
            TftpError::Others => "TftpError::Others".to_owned(),
            TftpError::FileNotFound => "TftpError::FileNotFound".to_owned(),
            TftpError::AccessViolation => "TftpError::AccessViolation".to_owned(),
            TftpError::DiskNoSpace => "TftpError::DiskNoSpace".to_owned(),
            TftpError::IllegalTftpOp => "TftpError::IllegalTftpOp".to_owned(),
            TftpError::UnknownTid => "TftpError::UnknownTid".to_owned(),
            TftpError::FileExists => "TftpError::FileExists".to_owned(),
            TftpError::NoSuchUser => "TftpError::NoSuchUser".to_owned(),
        }
    }
}

/// Every error has a wire code of at most 7, and the code names the error
/// again; a number above 7 names none.
pub proof fn lemma_error_code_roundtrip(e: TftpError, x: u16)
    ensures
        e.spec_error_code() <= 7,
        TftpError::spec_from_u16(e.spec_error_code()) == Some(e),
        TftpError::spec_from_u16(x) is Some <==> x <= 7,
        TftpError::spec_from_u16(x) == Some(e) ==> e.spec_error_code() == x,
{
}

/// Why a datagram was refused by the codec.
#[derive(Debug, Clone, Copy, PartialEq, Eq, Structural)]
pub enum ParseError {
    /// The datagram is shorter than the fixed header of its packet type.
    TooShort,
    /// The opcode is not the one of the packet type asked for.
    IllegalOpcode,
    /// A NUL terminator is missing, or there are more fields than the packet has.
    IllegalFormat,
    /// The filename has no terminal component.
    IllegalFilename,
    /// The mode is neither netascii nor octet.
    UnknownMode,
    /// The payload of a DATA packet is longer than one block.
    PayloadTooLong,
    /// A netascii payload holds a CR that neither NUL nor LF follows.
    IllegalNetascii,
    /// The code of an ERROR packet is above 7.
    IllegalErrorCode,
}

impl ParseError {
    /// The protocol error under which a refusal is reported to a peer.
    pub open spec fn spec_tftp_error(self) -> TftpError {
        match self {
            ParseError::IllegalFilename => TftpError::AccessViolation,
            _ => TftpError::IllegalTftpOp,
        }
    }

    /// The protocol error under which a refusal is reported to a peer: an
    /// access violation for a filename without a terminal component, an
    /// illegal operation for everything else.
    pub fn tftp_error(&self) -> (res: TftpError)
        ensures
            res == self.spec_tftp_error(),
    {
        match self {
            ParseError::IllegalFilename => TftpError::AccessViolation,
            _ => TftpError::IllegalTftpOp,
        }
    }
}

/// The classes of storage failure that a session tells apart.
#[derive(Debug, Clone, Copy, PartialEq, Eq, Structural)]
pub enum StorageFailure {
    NotFound,
    PermissionDenied,
    NoSpace,
    Other,
}

impl StorageFailure {
    /// The protocol error that reports a storage failure.
    pub open spec fn spec_tftp_error(self) -> TftpError {
        match self {
            StorageFailure::NotFound => TftpError::FileNotFound,
            StorageFailure::PermissionDenied => TftpError::AccessViolation,
            StorageFailure::NoSpace => TftpError::DiskNoSpace,
            StorageFailure::Other => TftpError::Others,
        }
    }

    /// The message that goes with the report.
    pub open spec fn spec_message(self) -> Seq<char> {
        match self {
            StorageFailure::NotFound => "File not found"@,
            StorageFailure::PermissionDenied => "Permission denied"@,
            StorageFailure::NoSpace => "Disk full"@,
            StorageFailure::Other => "Unexpected error"@,
        }
    }

    pub fn tftp_error(&self) -> (res: TftpError)
        ensures
            res == self.spec_tftp_error(),
    {
        match self {
            StorageFailure::NotFound => TftpError::FileNotFound,
            StorageFailure::PermissionDenied => TftpError::AccessViolation,
            StorageFailure::NoSpace => TftpError::DiskNoSpace,
            StorageFailure::Other => TftpError::Others,
        }
    }

    pub fn message(&self) -> (res: String)
        ensures
            res@ == self.spec_message(),
    {
        match self {
            StorageFailure::NotFound => "File not found".to_owned(),
            StorageFailure::PermissionDenied => "Permission denied".to_owned(),
            StorageFailure::NoSpace => "Disk full".to_owned(),
            StorageFailure::Other => "Unexpected error".to_owned(),
        }
    }
}

} // verus!
