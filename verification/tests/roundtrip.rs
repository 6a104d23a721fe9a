use cadmium::codec::{encode_to_vec, Codec};
use cadmium::idwrap::IDWrap;
use cadmium::model::{AddSketchCommand, RenameCommand};

#[test]
fn rename_encoding_is_length_prefixed_bytes() {
    let cmd = RenameCommand { new_name: b"foo".to_vec() };
    let bytes = encode_to_vec(&cmd);
    assert_eq!(bytes, vec![3, 0, 0, 0, 0, 0, 0, 0, b'f', b'o', b'o']);
}

#[test]
fn envelope_encoding_is_id_then_payload() {
    let envelope = IDWrap::new(7, RenameCommand { new_name: b"x".to_vec() });
    let bytes = encode_to_vec(&envelope);
    assert_eq!(
        bytes,
        vec![7, 0, 0, 0, 0, 0, 0, 0, 1, 0, 0, 0, 0, 0, 0, 0, b'x']
    );
}

#[test]
fn nested_envelope_round_trip() {
    let envelope = IDWrap::new(7, IDWrap::new(42, RenameCommand { new_name: b"foo".to_vec() }));
    let bytes = encode_to_vec(&envelope);
    let (decoded, end): (IDWrap<IDWrap<RenameCommand>>, usize) = Codec::decode(&bytes, 0).unwrap();
    assert_eq!(end, bytes.len());
    assert_eq!(decoded.id(), 7);
    assert_eq!(decoded.inner().id(), 42);
    assert_eq!(decoded.inner().inner().new_name, b"foo".to_vec());
}

#[test]
fn add_sketch_envelope_round_trip() {
    let envelope = IDWrap::new(8, AddSketchCommand { sketch_id: 5, name: b"lid".to_vec() });
    let bytes = encode_to_vec(&envelope);
    let (decoded, end): (IDWrap<AddSketchCommand>, usize) = Codec::decode(&bytes, 0).unwrap();
    assert_eq!(end, bytes.len());
    assert_eq!(decoded.id(), 8);
    assert_eq!(decoded.inner().sketch_id, 5);
    assert_eq!(decoded.inner().name, b"lid".to_vec());
}

#[test]
fn empty_name_round_trip() {
    let cmd = RenameCommand { new_name: vec![] };
    let bytes = encode_to_vec(&cmd);
    assert_eq!(bytes, vec![0, 0, 0, 0, 0, 0, 0, 0]);
    let (decoded, end): (RenameCommand, usize) = Codec::decode(&bytes, 0).unwrap();
    assert_eq!(end, 8);
    assert_eq!(decoded.new_name, Vec::<u8>::new());
}

#[test]
fn decode_truncated_header_returns_none() {
    let bytes = vec![1, 2, 3];
    assert!(<RenameCommand as Codec>::decode(&bytes, 0).is_none());
    assert!(<IDWrap<RenameCommand> as Codec>::decode(&bytes, 0).is_none());
}

#[test]
fn decode_truncated_payload_returns_none() {
    let bytes = vec![5, 0, 0, 0, 0, 0, 0, 0, 1, 2];
    assert!(<RenameCommand as Codec>::decode(&bytes, 0).is_none());
}

#[test]
fn decode_reads_from_the_given_position() {
    let cmd = RenameCommand { new_name: b"a".to_vec() };
    let mut bytes = vec![0xFF, 0xEE];
    bytes.extend(encode_to_vec(&cmd));
    let (decoded, end): (RenameCommand, usize) = Codec::decode(&bytes, 2).unwrap();
    assert_eq!(decoded.new_name, b"a".to_vec());
    assert_eq!(end, bytes.len());
}
