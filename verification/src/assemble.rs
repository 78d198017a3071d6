//! The executable assembler. The output is the donor's stub followed by an
//! archive of two entries, the serialized manifest and the module's bytes,
//! so that it runs as the donor did and opens as an archive.
//!
//! The archive is written by the codec, entry by entry; which file it
//! leaves for given entries is named, not proved. What it wrote is read
//! back before it is handed out. An output has to begin with the stub and
//! go on behind it, and the codec has to find the first record exactly
//! where the stub ends. An output that fails this is withheld, so that
//! every output handed out can serve as a donor again and yields the same
//! stub.

use vstd::prelude::*;
use vstd::string::*;
use vstd::utf8::encode_utf8;
use crate::archive::{
    archive_image, begins_with, close_writer, entries_in, goes_on_with, open_writer, start_entry,
    write_entry, Entry,
};
use crate::donor::{first_record, first_record_offset, inspect, stub_length, stub_of, Donor};
use crate::error::{AssembleError, Diagnostic, MandatoryField};
use crate::manifest::{Manifest, ManifestView};
use crate::record::{serialize, serialized};

verus! {

/// The name of the entry that holds the serialized manifest.
pub open spec fn manifest_entry() -> Seq<char> {
    "hermit.json"@
}

/// The name of the entry that holds the module's bytes.
pub open spec fn module_entry() -> Seq<char> {
    "main.wasm"@
}

/// The entries of an output, in their order: the serialized manifest, then
/// the module.
pub open spec fn entries_for(manifest_json: Seq<u8>, module: Seq<u8>) -> Seq<Entry> {
    seq![(manifest_entry(), manifest_json), (module_entry(), module)]
}

/// What an assembly hands out.
#[derive(Clone, Debug, PartialEq, Eq)]
pub struct Assembly<P> {
    /// The bytes of the polyglot executable.
    pub output: Vec<u8>,
    /// How many of them are the stub.
    pub stub_length: usize,
    /// The donor's permissions, for the output to take over.
    pub permissions: P,
}

/// Whether `output` begins with `stub`, goes on behind it, and the first
/// record of its archive was reported, as `first_record`, exactly where the
/// stub ends.
pub open spec fn holds_stub(output: Seq<u8>, stub: Seq<u8>, first_record: Option<u64>) -> bool {
    &&& stub.len() < output.len()
    &&& output.take(stub.len() as int) == stub
    &&& first_record matches Some(offset) && offset == stub.len()
}

/// Whether `output` is the polyglot of `stub` and the two payloads: the
/// file that the codec leaves behind `stub` for the two entries, and one
/// that holds the stub.
pub open spec fn is_polyglot(
    output: Seq<u8>,
    stub: Seq<u8>,
    manifest_json: Seq<u8>,
    module: Seq<u8>,
) -> bool {
    &&& archive_image(stub, entries_for(manifest_json, module)) == Some(output)
    &&& holds_stub(output, stub, first_record_offset(output))
}

/// What splicing `stub` with the two payloads gives: the file that the
/// codec leaves behind `stub` for the two entries, provided there is one
/// and it holds the stub, and `OutputWriteFailure` otherwise.
pub open spec fn spliced(stub: Seq<u8>, manifest_json: Seq<u8>, module: Seq<u8>) -> Result<
    Seq<u8>,
    AssembleError,
> {
    match archive_image(stub, entries_for(manifest_json, module)) {
        Some(output) => if holds_stub(output, stub, first_record_offset(output)) {
            Ok(output)
        } else {
            Err(AssembleError::OutputWriteFailure)
        },
        None => Err(AssembleError::OutputWriteFailure),
    }
}

/// The bytes of the module, where it was read.
pub open spec fn payload_of(module: Option<Vec<u8>>) -> Option<Seq<u8>> {
    match module {
        Some(bytes) => Some(bytes@),
        None => None,
    }
}

/// What keeps an assembly from reaching the codec, first failure first:
/// the manifest names no module, the donor is missing, the donor is
/// unreadable, the module is unreadable. `None` where nothing does.
pub open spec fn refusal<P>(
    manifest: ManifestView,
    donor: Donor<P>,
    module: Option<Seq<u8>>,
) -> Option<AssembleError> {
    if manifest.source_path.len() == 0 {
        Some(AssembleError::MissingMandatoryField(MandatoryField::Source))
    } else {
        match donor {
            Donor::Missing => Some(AssembleError::DonorNotFound),
            Donor::Unreadable => Some(AssembleError::DonorUnreadable),
            Donor::Found { bytes, permissions } => match module {
                None => Some(AssembleError::ModulePayloadUnreadable),
                Some(_) => None,
            },
        }
    }
}

/// The bytes that assembling `manifest` with `donor` and the module's bytes
/// gives, or the failure: what `refusal` names, and `OutputWriteFailure`
/// where the manifest cannot be serialized or the splice fails.
pub open spec fn assembled<P>(
    manifest: ManifestView,
    donor: Donor<P>,
    module: Option<Seq<u8>>,
) -> Result<Seq<u8>, AssembleError> {
    match refusal(manifest, donor, module) {
        Some(e) => Err(e),
        None => match serialized(manifest) {
            Some(json) => spliced(
                stub_of(donor->Found_bytes@),
                encode_utf8(json),
                module->0,
            ),
            None => Err(AssembleError::OutputWriteFailure),
        },
    }
}

/// Whether `assembly` is what assembling `manifest` with a donor of the
/// bytes `donor` and the permissions `permissions`, and the module's bytes,
/// hands out.
pub open spec fn is_assembly_of<P>(
    assembly: Assembly<P>,
    manifest: ManifestView,
    donor: Seq<u8>,
    permissions: P,
    module: Seq<u8>,
) -> bool {
    &&& serialized(manifest) matches Some(json) && is_polyglot(
        assembly.output@,
        stub_of(donor),
        encode_utf8(json),
        module,
    )
    &&& assembly.stub_length == stub_of(donor).len()
    &&& assembly.permissions == permissions
}

/// What an assembly comes to once the output is written, or not, and the
/// donor's permissions are applied to it, or not.
pub open spec fn concluded(written: bool, permissions_applied: bool) -> Result<
    Option<Diagnostic>,
    AssembleError,
> {
    if !written {
        Err(AssembleError::OutputWriteFailure)
    } else if permissions_applied {
        Ok(None)
    } else {
        Ok(Some(Diagnostic::PermissionApplicationUnsupported))
    }
}

/// An assembly is owed wherever nothing refuses it, the manifest
/// serializes, and the codec leaves a file for the two entries that holds
/// the stub: then the result is that file.
pub proof fn lemma_assembly_is_owed<P>(
    manifest: ManifestView,
    donor: Vec<u8>,
    permissions: P,
    module: Seq<u8>,
    json: Seq<char>,
    output: Seq<u8>,
)
    requires
        manifest.source_path.len() > 0,
        serialized(manifest) == Some(json),
        archive_image(stub_of(donor@), entries_for(encode_utf8(json), module)) == Some(output),
        holds_stub(output, stub_of(donor@), first_record_offset(output)),
    ensures
        assembled(manifest, Donor::Found { bytes: donor, permissions }, Some(module)) == Ok::<
            Seq<u8>,
            AssembleError,
        >(output),
{
}

/// What is spliced is the polyglot, and only that.
pub proof fn lemma_spliced_is_polyglot(
    output: Seq<u8>,
    stub: Seq<u8>,
    manifest_json: Seq<u8>,
    module: Seq<u8>,
)
    ensures
        is_polyglot(output, stub, manifest_json, module) <==> spliced(stub, manifest_json, module)
            == Ok::<Seq<u8>, AssembleError>(output),
{
}

/// An output that was handed out yields, as a donor, the stub it was made
/// from, and is longer than it.
pub proof fn lemma_output_yields_stub(
    output: Seq<u8>,
    stub: Seq<u8>,
    manifest_json: Seq<u8>,
    module: Seq<u8>,
)
    requires
        is_polyglot(output, stub, manifest_json, module),
    ensures
        stub_length(output) == stub.len(),
        stub_of(output) == stub,
        stub.len() < output.len(),
{
}

/// Re-assembly is idempotent: what is assembled from an output as the
/// donor, with the same two payloads, is that output again.
pub proof fn lemma_reassembly_is_idempotent(
    first: Seq<u8>,
    second: Seq<u8>,
    stub: Seq<u8>,
    manifest_json: Seq<u8>,
    module: Seq<u8>,
)
    requires
        is_polyglot(first, stub, manifest_json, module),
        is_polyglot(second, stub_of(first), manifest_json, module),
    ensures
        second == first,
        stub_of(second) == stub,
{
    lemma_output_yields_stub(first, stub, manifest_json, module);
}

/// What an assembly hands out has, as a donor, the stub of the donor it
/// was made from.
pub proof fn lemma_assembly_keeps_stub<P>(
    assembly: Assembly<P>,
    manifest: ManifestView,
    donor: Seq<u8>,
    permissions: P,
    module: Seq<u8>,
)
    requires
        is_assembly_of(assembly, manifest, donor, permissions, module),
    ensures
        stub_of(assembly.output@) == stub_of(donor),
        stub_length(assembly.output@) == assembly.stub_length,
        assembly.stub_length < assembly.output.len(),
{
    let json = serialized(manifest)->0;
    lemma_output_yields_stub(assembly.output@, stub_of(donor), encode_utf8(json), module);
}

/// With a donor that is missing nothing is assembled, whatever the module.
pub proof fn lemma_missing_donor_fails<P>(manifest: ManifestView, module: Option<Seq<u8>>)
    requires
        manifest.well_formed(),
    ensures
        refusal(manifest, Donor::<P>::Missing, module) == Some(AssembleError::DonorNotFound),
{
}

/// Permissions decide nothing. Whether an assembly is refused does not
/// depend on the donor's permissions; what it hands out is the stub and the
/// archive of both entries, whatever the permissions; and where the output
/// is written and the permissions cannot be applied, the assembly ends well,
/// with the diagnostic.
pub proof fn lemma_permissions_do_not_decide<P, Q>(
    assembly: Assembly<P>,
    manifest: ManifestView,
    donor: Vec<u8>,
    permissions: P,
    other: Q,
    module: Seq<u8>,
)
    requires
        is_assembly_of(assembly, manifest, donor@, permissions, module),
    ensures
        refusal(manifest, Donor::Found { bytes: donor, permissions }, Some(module)) == refusal(
            manifest,
            Donor::Found { bytes: donor, permissions: other },
            Some(module),
        ),
        is_assembly_of(
            Assembly { output: assembly.output, stub_length: assembly.stub_length, permissions: other },
            manifest,
            donor@,
            other,
            module,
        ),
        assembly.output@.take(assembly.stub_length as int) == stub_of(donor@),
        concluded(true, false) == Ok::<Option<Diagnostic>, AssembleError>(
            Some(Diagnostic::PermissionApplicationUnsupported),
        ),
{
    let json = serialized(manifest)->0;
    lemma_output_yields_stub(assembly.output@, stub_of(donor@), encode_utf8(json), module);
}

/// Whether `output` holds `stub`, for any value given as the offset of the
/// first record of `output`.
pub fn check_output(output: &[u8], stub: &[u8], first_record: Option<u64>) -> (ok: bool)
    ensures
        ok == holds_stub(output@, stub@, first_record),
{
    if stub.len() >= output.len() {
        return false;
    }
    match first_record {
        Some(offset) => {
            if offset != stub.len() as u64 {
                return false;
            }
        },
        None => {
            return false;
        },
    }
    let mut i: usize = 0;
    while i < stub.len()
        invariant
            i <= stub.len() < output.len(),
            forall|j: int| 0 <= j < i ==> output@[j] == stub@[j],
        decreases stub.len() - i,
    {
        if output[i] != stub[i] {
            assert(output@.take(stub.len() as int)[i as int] != stub@[i as int]);
            return false;
        }
        i += 1;
    }
    assert(output@.take(stub.len() as int) =~= stub@);
    true
}

/// Decides on what the codec wrote: `output` is handed out where it holds
/// `stub`, given the offset reported for its first record, and withheld
/// with `OutputWriteFailure` where it does not.
pub fn accept_output(stub: &[u8], output: Vec<u8>, first_record: Option<u64>) -> (r: Result<
    Vec<u8>,
    AssembleError,
>)
    ensures
        r == (if holds_stub(output@, stub@, first_record) {
            Ok::<Vec<u8>, AssembleError>(output)
        } else {
            Err::<Vec<u8>, AssembleError>(AssembleError::OutputWriteFailure)
        }),
{
    if check_output(output.as_slice(), stub, first_record) {
        Ok(output)
    } else {
        Err(AssembleError::OutputWriteFailure)
    }
}

/// Has the codec write, behind `stub`, the entry of the serialized manifest
/// and then the entry of the module. `None` exactly where the codec can
/// write no such archive.
fn write_archive(stub: &[u8], manifest_json: &[u8], module: &[u8]) -> (r: Option<Vec<u8>>)
    ensures
        match r {
            Some(output) => archive_image(stub@, entries_for(manifest_json@, module@)) == Some(
                output@,
            ),
            None => archive_image(stub@, entries_for(manifest_json@, module@)) is None,
        },
{
    let ghost target = entries_for(manifest_json@, module@);
    let mut writer = open_writer(stub);
    assert(goes_on_with(target, entries_in(writer), manifest_entry())) by {
        assert(target.take(0) =~= entries_in(writer));
    }
    if start_entry(&mut writer, "hermit.json").is_err() {
        return None;
    }
    assert(begins_with(target, seq![(manifest_entry(), manifest_json@)])) by {
        assert(target.take(1) =~= seq![(manifest_entry(), manifest_json@)]);
    }
    assert(entries_in(writer).drop_last().push((manifest_entry(), manifest_json@)) =~= seq![
        (manifest_entry(), manifest_json@),
    ]);
    if write_entry(&mut writer, manifest_json).is_err() {
        return None;
    }
    assert(entries_in(writer) =~= seq![(manifest_entry(), manifest_json@)]);
    assert(goes_on_with(target, entries_in(writer), module_entry())) by {
        assert(target.take(1) =~= seq![(manifest_entry(), manifest_json@)]);
    }
    if start_entry(&mut writer, "main.wasm").is_err() {
        return None;
    }
    assert(entries_in(writer).drop_last().push((module_entry(), module@)) =~= target);
    assert(begins_with(target, target)) by {
        assert(target.take(2) =~= target);
    }
    if write_entry(&mut writer, module).is_err() {
        return None;
    }
    assert(entries_in(writer) =~= target);
    match close_writer(writer) {
        Ok(output) => Some(output),
        Err(_) => None,
    }
}

/// Appends to `stub` the archive of the serialized manifest and the
/// module's bytes. The output is handed out exactly where the codec leaves
/// a file for the two entries and that file holds the stub; the only
/// failure is `OutputWriteFailure`.
pub fn splice(stub: &[u8], manifest_json: &[u8], module: &[u8]) -> (r: Result<
    Vec<u8>,
    AssembleError,
>)
    ensures
        match r {
            Ok(output) => spliced(stub@, manifest_json@, module@) == Ok::<Seq<u8>, AssembleError>(
                output@,
            ),
            Err(e) => spliced(stub@, manifest_json@, module@) == Err::<Seq<u8>, AssembleError>(e),
        },
        r matches Ok(output) ==> is_polyglot(output@, stub@, manifest_json@, module@),
{
    match write_archive(stub, manifest_json, module) {
        Some(output) => {
            let found = first_record(output.as_slice());
            accept_output(stub, output, found)
        },
        None => Err(AssembleError::OutputWriteFailure),
    }
}

/// Assembles the polyglot executable for `manifest` from what the caller
/// found at the donor's path and at the module's path (`None` where the
/// module could not be read). The result is exactly what `assembled` says.
/// It fails with the first of: the manifest names no module; the donor is
/// missing; the donor is unreadable; the module is unreadable. Otherwise an
/// assembly is owed wherever the manifest serializes and the codec leaves,
/// for the two entries, a file that holds the donor's stub; where not, the
/// failure is `OutputWriteFailure`.
pub fn assemble<P>(manifest: &Manifest, donor: Donor<P>, module: Option<Vec<u8>>) -> (r: Result<
    Assembly<P>,
    AssembleError,
>)
    ensures
        match r {
            Ok(assembly) => {
                &&& assembled(manifest@, donor, payload_of(module)) == Ok::<
                    Seq<u8>,
                    AssembleError,
                >(assembly.output@)
                &&& donor matches Donor::Found { bytes, permissions }
                &&& module matches Some(payload)
                &&& is_assembly_of(assembly, manifest@, bytes@, permissions, payload@)
                &&& assembly.stub_length == stub_length(bytes@)
                &&& stub_length(assembly.output@) == assembly.stub_length
                &&& assembly.stub_length < assembly.output.len()
            },
            Err(e) => assembled(manifest@, donor, payload_of(module)) == Err::<
                Seq<u8>,
                AssembleError,
            >(e),
        },
{
    if manifest.source_path.as_str().unicode_len() == 0 {
        return Err(AssembleError::MissingMandatoryField(MandatoryField::Source));
    }
    let stub = match inspect(donor) {
        Ok(stub) => stub,
        Err(e) => {
            return Err(e.into_assemble());
        },
    };
    let payload = match module {
        Some(payload) => payload,
        None => {
            return Err(AssembleError::ModulePayloadUnreadable);
        },
    };
    let json = match serialize(manifest) {
        Some(json) => json,
        None => {
            return Err(AssembleError::OutputWriteFailure);
        },
    };
    let output = splice(stub.stub_bytes.as_slice(), json.as_str().as_bytes(), payload.as_slice())?;
    Ok(Assembly { stub_length: stub.stub_bytes.len(), output, permissions: stub.permissions })
}

/// What an assembly comes to once the caller has written the output and
/// tried to give it the donor's permissions. An output that could not be
/// written is fatal. Permissions that could not be applied are not: the
/// output stands, and the operator is told to mark it executable.
pub fn conclude(written: bool, permissions_applied: bool) -> (r: Result<
    Option<Diagnostic>,
    AssembleError,
>)
    ensures
        r == concluded(written, permissions_applied),
{
    if !written {
        Err(AssembleError::OutputWriteFailure)
    } else if permissions_applied {
        Ok(None)
    } else {
        Ok(Some(Diagnostic::PermissionApplicationUnsupported))
    }
}

} // verus!
