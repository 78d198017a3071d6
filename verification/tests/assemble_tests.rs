use std::io::{Cursor, Read};

use hermitfile::assemble::{accept_output, assemble, check_output, conclude, splice};
use hermitfile::donor::{
    boundary_at, find_stub_boundary, first_record, inspect, Donor, DonorStub,
};
use hermitfile::error::{AssembleError, Diagnostic, InspectError, MandatoryField};
use hermitfile::frontend::parse_hermitfile;
use hermitfile::manifest::Manifest;
use hermitfile::record::serialize;

fn stub_bytes(len: usize) -> Vec<u8> {
    (0..len).map(|i| (i * 7 + 3) as u8).collect()
}

fn module_bytes(len: usize) -> Vec<u8> {
    (0..len).map(|i| (255 - i) as u8).collect()
}

fn sample_manifest() -> Manifest {
    parse_hermitfile(
        "FROM mod.wasm\nMAP ['~/.wasm/etc:/etc']\nENV_PWD_IS_HOST_CWD\nENTRYPOINT count_vowels\n",
        "/work/Hermitfile",
    )
    .unwrap()
}

fn entries(output: &[u8]) -> Vec<(String, Vec<u8>)> {
    let mut archive = zip::ZipArchive::new(Cursor::new(output)).unwrap();
    let mut found = Vec::new();
    for i in 0..archive.len() {
        let mut file = archive.by_index(i).unwrap();
        let mut data = Vec::new();
        file.read_to_end(&mut data).unwrap();
        found.push((file.name().to_string(), data));
    }
    found
}

#[test]
fn plain_donor_is_all_stub() {
    let donor = stub_bytes(200);
    assert_eq!(find_stub_boundary(&donor), 200);
    assert_eq!(find_stub_boundary(&[]), 0);
}

#[test]
fn boundary_follows_the_reported_offset() {
    assert_eq!(boundary_at(200, None), 200);
    assert_eq!(boundary_at(200, Some(120)), 120);
    assert_eq!(boundary_at(200, Some(0)), 0);
    assert_eq!(boundary_at(200, Some(200)), 200);
    assert_eq!(boundary_at(200, Some(201)), 200);
    assert_eq!(boundary_at(200, Some(u64::MAX)), 200);
}

#[test]
fn end_to_end_assembly_with_a_plain_donor() {
    let manifest = sample_manifest();
    let donor = Donor::Found { bytes: stub_bytes(200), permissions: 0o755u32 };
    let assembly = assemble(&manifest, donor, Some(module_bytes(50))).unwrap();
    assert_eq!(assembly.stub_length, 200);
    assert_eq!(assembly.permissions, 0o755);
    assert_eq!(&assembly.output[..200], &stub_bytes(200)[..]);
    assert!(assembly.output.len() > 200);
    let found = entries(&assembly.output);
    assert_eq!(found.len(), 2);
    assert_eq!(found[0].0, "hermit.json");
    assert_eq!(found[0].1, serialize(&manifest).unwrap().into_bytes());
    assert_eq!(found[1].0, "main.wasm");
    assert_eq!(found[1].1, module_bytes(50));
    assert_eq!(find_stub_boundary(&assembly.output), 200);
}

#[test]
fn reassembly_recovers_the_same_stub() {
    let manifest = sample_manifest();
    let first = assemble(
        &manifest,
        Donor::Found { bytes: stub_bytes(321), permissions: () },
        Some(module_bytes(10)),
    )
    .unwrap();
    let stub = inspect(Donor::Found { bytes: first.output.clone(), permissions: () }).unwrap();
    assert_eq!(stub, DonorStub { stub_bytes: stub_bytes(321), permissions: () });
    let second = assemble(
        &manifest,
        Donor::Found { bytes: first.output.clone(), permissions: () },
        Some(module_bytes(10)),
    )
    .unwrap();
    assert_eq!(second.stub_length, 321);
    assert_eq!(second.output, first.output);
}

#[test]
fn assembly_is_reproducible() {
    let manifest = sample_manifest();
    let one = assemble(
        &manifest,
        Donor::Found { bytes: stub_bytes(64), permissions: 1u8 },
        Some(module_bytes(99)),
    );
    let two = assemble(
        &manifest,
        Donor::Found { bytes: stub_bytes(64), permissions: 1u8 },
        Some(module_bytes(99)),
    );
    assert!(one.is_ok());
    assert_eq!(one, two);
}

#[test]
fn empty_stub_and_empty_module_assemble() {
    let manifest = sample_manifest();
    let assembly = assemble(
        &manifest,
        Donor::Found { bytes: Vec::new(), permissions: () },
        Some(Vec::new()),
    )
    .unwrap();
    assert_eq!(assembly.stub_length, 0);
    assert_eq!(find_stub_boundary(&assembly.output), 0);
    assert_eq!(entries(&assembly.output)[1].1, Vec::<u8>::new());
}

#[test]
fn missing_donor_fails_with_donor_not_found() {
    let manifest = sample_manifest();
    let r = assemble(&manifest, Donor::<u32>::Missing, Some(module_bytes(5)));
    assert_eq!(r, Err(AssembleError::DonorNotFound));
    let r = assemble(&manifest, Donor::<u32>::Missing, None);
    assert_eq!(r, Err(AssembleError::DonorNotFound));
}

#[test]
fn unreadable_donor_fails_with_donor_unreadable() {
    let manifest = sample_manifest();
    let r = assemble(&manifest, Donor::<u32>::Unreadable, Some(module_bytes(5)));
    assert_eq!(r, Err(AssembleError::DonorUnreadable));
}

#[test]
fn unreadable_module_fails_with_module_payload_unreadable() {
    let manifest = sample_manifest();
    let r = assemble(&manifest, Donor::Found { bytes: stub_bytes(8), permissions: () }, None);
    assert_eq!(r, Err(AssembleError::ModulePayloadUnreadable));
}

#[test]
fn manifest_without_source_is_not_assembled() {
    let mut manifest = sample_manifest();
    manifest.source_path = String::new();
    let r = assemble(
        &manifest,
        Donor::Found { bytes: stub_bytes(8), permissions: () },
        Some(module_bytes(5)),
    );
    assert_eq!(r, Err(AssembleError::MissingMandatoryField(MandatoryField::Source)));
    let r = assemble(&manifest, Donor::<()>::Missing, None);
    assert_eq!(r, Err(AssembleError::MissingMandatoryField(MandatoryField::Source)));
}

#[test]
fn inspection_reports_donor_errors() {
    assert_eq!(inspect(Donor::<u8>::Missing), Err(InspectError::DonorNotFound));
    assert_eq!(inspect(Donor::<u8>::Unreadable), Err(InspectError::DonorUnreadable));
    assert_eq!(
        inspect(Donor::Found { bytes: stub_bytes(40), permissions: 7u8 }),
        Ok(DonorStub { stub_bytes: stub_bytes(40), permissions: 7u8 })
    );
}

#[test]
fn inspection_errors_become_assembly_errors() {
    assert_eq!(InspectError::DonorNotFound.into_assemble(), AssembleError::DonorNotFound);
    assert_eq!(InspectError::DonorUnreadable.into_assemble(), AssembleError::DonorUnreadable);
    assert_eq!(MandatoryField::Source.name(), "source");
}

#[test]
fn splice_appends_behind_the_stub() {
    let stub = stub_bytes(77);
    let output = splice(&stub, b"{}", b"\0asm").unwrap();
    assert_eq!(&output[..77], &stub[..]);
    let found = entries(&output);
    assert_eq!(
        found,
        vec![
            ("hermit.json".to_string(), b"{}".to_vec()),
            ("main.wasm".to_string(), b"\0asm".to_vec()),
        ]
    );
    assert_ne!(output, stub);
}

#[test]
fn output_check_wants_the_stub_and_the_offset() {
    let stub = [1u8, 2, 3];
    assert!(check_output(&[1, 2, 3, 9, 9], &stub, Some(3)));
    assert!(!check_output(&[1, 2, 3, 9, 9], &stub, Some(2)));
    assert!(!check_output(&[1, 2, 3, 9, 9], &stub, None));
    assert!(!check_output(&[1, 2, 4, 9, 9], &stub, Some(3)));
    assert!(!check_output(&[1, 2], &stub, Some(3)));
    assert!(!check_output(&[1, 2, 3], &stub, Some(3)));
    assert!(!check_output(&[], &[], Some(0)));
    assert!(check_output(&[9], &[], Some(0)));
}

#[test]
fn output_is_handed_out_or_withheld() {
    let stub = [1u8, 2, 3];
    assert_eq!(accept_output(&stub, vec![1, 2, 3, 9], Some(3)), Ok(vec![1, 2, 3, 9]));
    assert_eq!(
        accept_output(&stub, vec![1, 2, 3, 9], Some(4)),
        Err(AssembleError::OutputWriteFailure)
    );
    assert_eq!(accept_output(&stub, vec![1, 2, 3, 9], None), Err(AssembleError::OutputWriteFailure));
    assert_eq!(accept_output(&stub, vec![1, 2, 3], Some(3)), Err(AssembleError::OutputWriteFailure));
    assert_eq!(accept_output(&stub, vec![7, 2, 3, 9], Some(3)), Err(AssembleError::OutputWriteFailure));
}

#[test]
fn first_record_is_found_behind_the_stub() {
    assert_eq!(first_record(&stub_bytes(200)), None);
    assert_eq!(first_record(&[]), None);
    let output = splice(&stub_bytes(200), b"{}", b"\0asm").unwrap();
    assert_eq!(first_record(&output), Some(200));
    assert!(output.len() > 200);
    let plain = splice(&[], b"{}", b"").unwrap();
    assert_eq!(first_record(&plain), Some(0));
}

#[test]
fn failed_permissions_do_not_abort() {
    assert_eq!(conclude(true, true), Ok(None));
    assert_eq!(conclude(true, false), Ok(Some(Diagnostic::PermissionApplicationUnsupported)));
    assert_eq!(conclude(false, true), Err(AssembleError::OutputWriteFailure));
    assert_eq!(conclude(false, false), Err(AssembleError::OutputWriteFailure));
}

#[test]
fn output_stands_without_permissions() {
    let manifest = sample_manifest();
    let assembly = assemble(
        &manifest,
        Donor::Found { bytes: stub_bytes(200), permissions: () },
        Some(module_bytes(50)),
    )
    .unwrap();
    assert_eq!(conclude(true, false), Ok(Some(Diagnostic::PermissionApplicationUnsupported)));
    assert_eq!(entries(&assembly.output).len(), 2);
}

#[test]
fn assembly_is_handed_out_for_a_plain_donor() {
    let manifest = parse_hermitfile(
        "FROM mod.wasm\nMAP ['~/.wasm/etc:/etc']\nENV_PWD_IS_HOST_CWD\nENTRYPOINT count_vowels\n",
        "/proj/Hermitfile",
    )
    .unwrap();
    assert_eq!(manifest.source_path, "/proj/mod.wasm");
    let donor = vec![0x7fu8; 200];
    let module = vec![0u8; 50];
    let assembly = assemble(
        &manifest,
        Donor::Found { bytes: donor.clone(), permissions: 0o755u32 },
        Some(module.clone()),
    )
    .unwrap();
    assert_eq!(assembly.stub_length, 200);
    assert!(assembly.output.len() > 200);
    assert_eq!(&assembly.output[..200], &donor[..]);
    assert_eq!(assembly.permissions, 0o755);
    let found = entries(&assembly.output);
    assert_eq!(found.len(), 2);
    assert_eq!(found[0], ("hermit.json".to_string(), serialize(&manifest).unwrap().into_bytes()));
    assert_eq!(found[1], ("main.wasm".to_string(), module));
    assert_eq!(find_stub_boundary(&assembly.output), 200);
}

#[test]
fn reassembly_drops_the_old_archive() {
    let manifest = sample_manifest();
    let first = assemble(
        &manifest,
        Donor::Found { bytes: stub_bytes(120), permissions: () },
        Some(module_bytes(30)),
    )
    .unwrap();
    let second = assemble(
        &manifest,
        Donor::Found { bytes: first.output.clone(), permissions: () },
        Some(module_bytes(7)),
    )
    .unwrap();
    assert_eq!(second.stub_length, 120);
    assert_eq!(&second.output[..120], &stub_bytes(120)[..]);
    let found = entries(&second.output);
    assert_eq!(found.len(), 2);
    assert_eq!(found[1].1, module_bytes(7));
}
