//! The donor inspector. A donor is a native executable, possibly with an
//! archive appended by an earlier assembly. Its stub is what stands before
//! the record of the archive's first entry; a donor without archive, or
//! with an archive that has no entry to be found, is all stub.

use vstd::prelude::*;
use crate::archive::{open_reader, record_count, record_offset, records_of};
use crate::error::InspectError;

verus! {

/// What the caller found at the donor's path. `P` is the platform's
/// description of the file's permissions; it is passed on untouched.
#[derive(Clone, Debug, PartialEq, Eq)]
pub enum Donor<P> {
    /// No file stands at the path.
    Missing,
    /// A file stands there and could not be read.
    Unreadable,
    /// The file's bytes and permissions.
    Found { bytes: Vec<u8>, permissions: P },
}

/// The reusable part of a donor.
#[derive(Clone, Debug, PartialEq, Eq)]
pub struct DonorStub<P> {
    /// The native executable, without any archive behind it.
    pub stub_bytes: Vec<u8>,
    /// The donor's permissions, for the output to take over.
    pub permissions: P,
}

/// The offset of the record of the first entry, given what the codec found
/// in a file: `None` where it found no archive, no entry, or no record for
/// the first entry.
pub open spec fn first_of(records: Option<Seq<Option<u64>>>) -> Option<u64> {
    match records {
        Some(list) => if list.len() > 0 {
            list[0]
        } else {
            None
        },
        None => None,
    }
}

/// The offset of the record of the first entry of the archive that `bytes`
/// ends in.
pub open spec fn first_record_offset(bytes: Seq<u8>) -> Option<u64> {
    first_of(records_of(bytes))
}

/// The length of the stub of the donor `bytes`: the offset of the first
/// entry's record, and the donor's length where there is none.
pub open spec fn stub_length(bytes: Seq<u8>) -> nat {
    match first_record_offset(bytes) {
        Some(offset) => offset as nat,
        None => bytes.len(),
    }
}

/// The stub of the donor `bytes`.
pub open spec fn stub_of(bytes: Seq<u8>) -> Seq<u8> {
    bytes.take(stub_length(bytes) as int)
}

/// The length of the stub of a file of `len` bytes for which `first_record`
/// is given as the offset of the first entry's record: that offset, and
/// `len` where none is given or the offset given lies beyond the file.
pub open spec fn boundary(len: nat, first_record: Option<u64>) -> nat {
    match first_record {
        Some(offset) => if offset <= len {
            offset as nat
        } else {
            len
        },
        None => len,
    }
}

/// The length of the stub of a file of `len` bytes, for any value given as
/// the offset of the first entry's record.
pub fn boundary_at(len: usize, first_record: Option<u64>) -> (r: usize)
    ensures
        r == boundary(len as nat, first_record),
        r <= len,
{
    match first_record {
        Some(offset) => {
            if offset <= len as u64 {
                offset as usize
            } else {
                len
            }
        },
        None => len,
    }
}

/// The offset of the record of the first entry of the archive that `bytes`
/// ends in. It lies inside the file.
pub fn first_record(bytes: &[u8]) -> (r: Option<u64>)
    ensures
        r == first_record_offset(bytes@),
        r matches Some(offset) ==> offset < bytes.len(),
{
    match open_reader(bytes) {
        Ok(reader) => {
            let mut reader = reader;
            if record_count(&reader) == 0 {
                None
            } else {
                match record_offset(&mut reader, 0) {
                    Ok(offset) => Some(offset),
                    Err(_) => None,
                }
            }
        },
        Err(_) => None,
    }
}

/// The length of the stub of the donor `bytes`.
pub fn find_stub_boundary(bytes: &[u8]) -> (r: usize)
    ensures
        r == stub_length(bytes@),
        r <= bytes.len(),
{
    boundary_at(bytes.len(), first_record(bytes))
}

/// Inspects a donor: its stub and its permissions. Fails with
/// `DonorNotFound` exactly where the donor is missing and with
/// `DonorUnreadable` exactly where it could not be read.
pub fn inspect<P>(donor: Donor<P>) -> (r: Result<DonorStub<P>, InspectError>)
    ensures
        match donor {
            Donor::Missing => r == Err::<DonorStub<P>, InspectError>(InspectError::DonorNotFound),
            Donor::Unreadable => r == Err::<DonorStub<P>, InspectError>(
                InspectError::DonorUnreadable,
            ),
            Donor::Found { bytes, permissions } => r matches Ok(stub) && stub.stub_bytes@
                == stub_of(bytes@) && stub.stub_bytes.len() == stub_length(bytes@)
                && stub.permissions == permissions,
        },
{
    match donor {
        Donor::Missing => Err(InspectError::DonorNotFound),
        Donor::Unreadable => Err(InspectError::DonorUnreadable),
        Donor::Found { bytes, permissions } => {
            let length = find_stub_boundary(bytes.as_slice());
            let mut stub_bytes = bytes;
            stub_bytes.truncate(length);
            Ok(DonorStub { stub_bytes, permissions })
        },
    }
}

} // verus!
