use schnorr_identification::codec::{COMPRESSED_SIZE, UNCOMPRESSED_SIZE};
use schnorr_identification::error::SerializationError;
use schnorr_identification::group::{GroupElem, Parameters};
use schnorr_identification::schnorr::Proof;

fn toy_group() -> Parameters {
    Parameters::new(71, 70, 7).expect("toy group parameters must validate")
}

fn mk_proof(commit: u64, opening: u64) -> Proof {
    Proof { random_commit: GroupElem { value: commit }, opening }
}

#[test]
fn round_trip_compressed() {
    let pp = toy_group();
    for pr in [mk_proof(59, 38), mk_proof(1, 0), mk_proof(70, 69)] {
        let mut bytes: Vec<u8> = Vec::new();
        pr.serialize(&mut bytes);
        assert_eq!(bytes.len(), COMPRESSED_SIZE);
        assert_eq!(Proof::deserialize(&pp, &bytes), Ok(pr));
    }
}

#[test]
fn round_trip_uncompressed() {
    let pp = toy_group();
    for pr in [mk_proof(59, 38), mk_proof(1, 0), mk_proof(70, 69)] {
        let mut bytes: Vec<u8> = Vec::new();
        pr.serialize_uncompressed(&mut bytes);
        assert_eq!(bytes.len(), UNCOMPRESSED_SIZE);
        assert_eq!(Proof::deserialize_uncompressed(&pp, &bytes), Ok(pr));
    }
}

#[test]
fn round_trip_unchecked() {
    let pp = toy_group();
    // unchecked mode round-trips even proofs no checked decoder would take
    for pr in [mk_proof(59, 38), mk_proof(100, 99), mk_proof(u64::MAX, u64::MAX)] {
        let mut bytes: Vec<u8> = Vec::new();
        pr.serialize_unchecked(&mut bytes);
        assert_eq!(bytes.len(), UNCOMPRESSED_SIZE);
        assert_eq!(Proof::deserialize_unchecked(&pp, &bytes), Ok(pr));
    }
}

#[test]
fn exact_byte_layout() {
    let pr = mk_proof(59, 38);
    let mut compressed: Vec<u8> = Vec::new();
    pr.serialize(&mut compressed);
    assert_eq!(compressed, vec![59, 0, 0, 0, 38, 0, 0, 0, 0, 0, 0, 0]);
    let mut full: Vec<u8> = Vec::new();
    pr.serialize_uncompressed(&mut full);
    assert_eq!(full, vec![59, 0, 0, 0, 0, 0, 0, 0, 38, 0, 0, 0, 0, 0, 0, 0]);
}

#[test]
fn multi_byte_layout() {
    let pr = mk_proof(0x01020304, 0x1122334455667788);
    let mut full: Vec<u8> = Vec::new();
    pr.serialize_uncompressed(&mut full);
    assert_eq!(
        full,
        vec![4, 3, 2, 1, 0, 0, 0, 0, 0x88, 0x77, 0x66, 0x55, 0x44, 0x33, 0x22, 0x11]
    );
    let mut compact: Vec<u8> = Vec::new();
    pr.serialize(&mut compact);
    assert_eq!(compact, vec![4, 3, 2, 1, 0x88, 0x77, 0x66, 0x55, 0x44, 0x33, 0x22, 0x11]);
}

#[test]
fn mode_isolation() {
    let pp = toy_group();
    let pr = mk_proof(59, 38);
    let mut compressed: Vec<u8> = Vec::new();
    pr.serialize(&mut compressed);
    assert_eq!(
        Proof::deserialize_uncompressed(&pp, &compressed),
        Err(SerializationError::UnexpectedLength)
    );
    let mut full: Vec<u8> = Vec::new();
    pr.serialize_uncompressed(&mut full);
    assert_eq!(Proof::deserialize(&pp, &full), Err(SerializationError::UnexpectedLength));
}

#[test]
fn unchecked_bypass() {
    let pp = toy_group();
    // point value 71 == modulus: not a group member
    let mut bytes: Vec<u8> = vec![71, 0, 0, 0, 0, 0, 0, 0, 5, 0, 0, 0, 0, 0, 0, 0];
    assert_eq!(Proof::deserialize_unchecked(&pp, &bytes), Ok(mk_proof(71, 5)));
    assert_eq!(
        Proof::deserialize_uncompressed(&pp, &bytes),
        Err(SerializationError::InvalidPoint)
    );
    // scalar value 70 == order: not a reduced scalar
    bytes = vec![59, 0, 0, 0, 0, 0, 0, 0, 70, 0, 0, 0, 0, 0, 0, 0];
    assert_eq!(Proof::deserialize_unchecked(&pp, &bytes), Ok(mk_proof(59, 70)));
    assert_eq!(
        Proof::deserialize_uncompressed(&pp, &bytes),
        Err(SerializationError::InvalidScalar)
    );
}

#[test]
fn decode_rejects_wrong_length() {
    let pp = toy_group();
    let bytes: Vec<u8> = vec![1, 2, 3];
    assert_eq!(Proof::deserialize(&pp, &bytes), Err(SerializationError::UnexpectedLength));
    assert_eq!(
        Proof::deserialize_uncompressed(&pp, &bytes),
        Err(SerializationError::UnexpectedLength)
    );
    assert_eq!(
        Proof::deserialize_unchecked(&pp, &bytes),
        Err(SerializationError::UnexpectedLength)
    );
    let empty: Vec<u8> = Vec::new();
    assert_eq!(Proof::deserialize(&pp, &empty), Err(SerializationError::UnexpectedLength));
}

#[test]
fn decode_rejects_invalid_point_and_scalar() {
    let pp = toy_group();
    // compressed, point 0: the group has no zero element
    let bytes: Vec<u8> = vec![0, 0, 0, 0, 5, 0, 0, 0, 0, 0, 0, 0];
    assert_eq!(Proof::deserialize(&pp, &bytes), Err(SerializationError::InvalidPoint));
    // compressed, point 200 >= 71
    let bytes2: Vec<u8> = vec![200, 0, 0, 0, 5, 0, 0, 0, 0, 0, 0, 0];
    assert_eq!(Proof::deserialize(&pp, &bytes2), Err(SerializationError::InvalidPoint));
    // compressed, scalar 200 >= 70
    let bytes3: Vec<u8> = vec![59, 0, 0, 0, 200, 0, 0, 0, 0, 0, 0, 0];
    assert_eq!(Proof::deserialize(&pp, &bytes3), Err(SerializationError::InvalidScalar));
    // the point check comes first
    let bytes4: Vec<u8> = vec![0, 0, 0, 0, 200, 0, 0, 0, 0, 0, 0, 0];
    assert_eq!(Proof::deserialize(&pp, &bytes4), Err(SerializationError::InvalidPoint));
}

#[test]
fn size_queries() {
    let pr = mk_proof(59, 38);
    assert_eq!(pr.serialized_size(), 12);
    assert_eq!(pr.uncompressed_size(), 16);
    let mut compressed: Vec<u8> = Vec::new();
    pr.serialize(&mut compressed);
    assert_eq!(compressed.len(), pr.serialized_size());
    let mut full: Vec<u8> = Vec::new();
    pr.serialize_uncompressed(&mut full);
    assert_eq!(full.len(), pr.uncompressed_size());
}

#[test]
fn wire_form_conversions() {
    let pr = mk_proof(59, 38);
    let a = pr.to_wire_form();
    assert_eq!(a.random_commit, 59);
    assert_eq!(a.opening, 38);
    assert_eq!(a.into_proof(), pr);
}
