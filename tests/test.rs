use serde_mtproto::de::Deserializer;
use serde_mtproto::ser::Serializer;

fn foo_serialized() -> Vec<u8> {
    vec![
        0xef, 0xbe, 0xad, 0xde, // id of Foo in little-endian
        181, 117, 114, 153, // id of true in little-endian
        57, 0, 0, 0, 0, 0, 0, 0, // 57 as little-endian 64-bit int
    ]
}

fn cafebabe_bar_serialized() -> Vec<u8> {
    vec![
        0x0d, 0xf0, 0xad, 0x0b, // id of Cafebabe::Bar in little-endian
        236, 255, 255, 255, // -20 as 32-bit int
        94, 1, 0, 0, 0, 0, 0, 0, // 350 as little-endian 64-bit int
        9, 46, 2, 0, 0, 0, 0, 0, // 142857 as little-endian 64-bit int
    ]
}

fn cafebabe_baz_serialized() -> Vec<u8> {
    vec![
        0xad, 0xaa, 0xaa, 0xba, // id of Cafebabe::Baz in little-endian
        255, 255, 255, 255, 255, 255, 255, 255, // u64::MAX
        4, 98, 101, 101, 102, 0, 0, 0, // "beef": length 4, then 3 bytes of padding
    ]
}

/// Foo { has_receiver: true, size: 57 }, boxed with id 0xdeadbeef.
fn write_foo(ser: &mut Serializer) {
    ser.serialize_u32(0xdeadbeef).unwrap();
    let mut fields = ser.serialize_struct(2).unwrap();
    fields.next_element().unwrap();
    ser.serialize_bool(true).unwrap();
    fields.next_element().unwrap();
    ser.serialize_u64(57).unwrap();
}

fn read_foo(de: &mut Deserializer) -> (bool, u64) {
    assert_eq!(de.deserialize_u32().unwrap(), 0xdeadbeef);
    let mut fields = de.deserialize_struct(2).unwrap();
    assert!(fields.next_element());
    let has_receiver = de.deserialize_bool().unwrap();
    assert!(fields.next_element());
    let size = de.deserialize_u64().unwrap();
    assert!(!fields.next_element());
    (has_receiver, size)
}

/// Cafebabe::Bar { byte_id: -20, position: (350, 142857) }, boxed with id 0x0badf00d.
fn write_bar(ser: &mut Serializer) {
    ser.serialize_u32(0x0badf00d).unwrap();
    let mut fields = ser.serialize_struct(2).unwrap();
    fields.next_element().unwrap();
    ser.serialize_i8(-20).unwrap();
    fields.next_element().unwrap();
    let mut position = ser.serialize_tuple(2).unwrap();
    position.next_element().unwrap();
    ser.serialize_u64(350).unwrap();
    position.next_element().unwrap();
    ser.serialize_u64(142857).unwrap();
}

fn read_bar(de: &mut Deserializer) -> (i8, (u64, u64)) {
    assert_eq!(de.deserialize_u32().unwrap(), 0x0badf00d);
    assert_eq!(de.deserialize_identifier(), "Bar");
    let mut fields = de.deserialize_struct(2).unwrap();
    assert!(fields.next_element());
    let byte_id = de.deserialize_i8().unwrap();
    assert!(fields.next_element());
    let mut position = de.deserialize_tuple(2).unwrap();
    assert!(position.next_element());
    let a = de.deserialize_u64().unwrap();
    assert!(position.next_element());
    let b = de.deserialize_u64().unwrap();
    (byte_id, (a, b))
}

/// Cafebabe::Baz { id: u64::MAX, name: "beef" }, boxed with id 0xbaaaaaad.
fn write_baz(ser: &mut Serializer) {
    ser.serialize_u32(0xbaaaaaad).unwrap();
    let mut fields = ser.serialize_struct(2).unwrap();
    fields.next_element().unwrap();
    ser.serialize_u64(u64::MAX).unwrap();
    fields.next_element().unwrap();
    ser.serialize_str("beef").unwrap();
}

fn read_baz(de: &mut Deserializer) -> (u64, String) {
    assert_eq!(de.deserialize_u32().unwrap(), 0xbaaaaaad);
    assert_eq!(de.deserialize_identifier(), "Baz");
    let mut fields = de.deserialize_struct(2).unwrap();
    assert!(fields.next_element());
    let id = de.deserialize_u64().unwrap();
    assert!(fields.next_element());
    let name = de.deserialize_string().unwrap();
    (id, name)
}

#[test]
fn test_struct_to_bytes_identifiable() {
    let mut ser = Serializer::new(Vec::new());
    write_foo(&mut ser);
    let vec = ser.into_writer();

    assert_eq!(vec, foo_serialized());
}

#[test]
fn test_struct_to_writer_identifiable() {
    let vec = Vec::new();
    let mut ser = Serializer::new(vec);
    write_foo(&mut ser);
    let vec = ser.into_writer();

    assert_eq!(vec, foo_serialized());
}

#[test]
fn test_struct_from_bytes_identifiable() {
    let bytes = foo_serialized();
    let mut de = Deserializer::new(&bytes, None);
    let foo_deserialized = read_foo(&mut de);

    assert_eq!(foo_deserialized, (true, 57));
}

#[test]
fn test_struct_from_reader_identifiable() {
    let bytes = foo_serialized();
    let mut de = Deserializer::new(bytes.as_slice(), None);
    let foo_deserialized = read_foo(&mut de);

    assert_eq!(foo_deserialized, (true, 57));
    assert_eq!(de.remaining_length(), 0);
}

#[test]
fn test_enum_variant_to_bytes_identifiable() {
    let mut ser = Serializer::new(Vec::new());
    write_bar(&mut ser);
    let vec = ser.into_writer();

    assert_eq!(vec, cafebabe_bar_serialized());
}

#[test]
fn test_enum_variant_to_writer_identifiable() {
    let vec = Vec::new();
    let mut ser = Serializer::new(vec);
    write_bar(&mut ser);
    let vec = ser.into_writer();

    assert_eq!(vec, cafebabe_bar_serialized());
}

#[test]
fn test_enum_variant_from_bytes_identifiable() {
    let bytes = cafebabe_bar_serialized();
    let mut de = Deserializer::new(&bytes, Some("Bar"));
    let cafebabe_bar_deserialized = read_bar(&mut de);

    assert_eq!(cafebabe_bar_deserialized, (-20, (350, 142857)));
}

#[test]
fn test_enum_variant_from_reader_identifiable() {
    let bytes = cafebabe_bar_serialized();
    let mut de = Deserializer::new(bytes.as_slice(), Some("Bar"));
    let cafebabe_bar_deserialized = read_bar(&mut de);

    assert_eq!(cafebabe_bar_deserialized, (-20, (350, 142857)));
    assert_eq!(de.remaining_length(), 0);
}

#[test]
fn test_enum_variant_to_bytes_identifiable2() {
    let mut ser = Serializer::new(Vec::new());
    write_baz(&mut ser);
    let vec = ser.into_writer();

    assert_eq!(vec, cafebabe_baz_serialized());
}

#[test]
fn test_enum_variant_to_writer_identifiable2() {
    let vec = Vec::new();
    let mut ser = Serializer::new(vec);
    write_baz(&mut ser);
    let vec = ser.into_writer();

    assert_eq!(vec, cafebabe_baz_serialized());
}

#[test]
fn test_enum_variant_from_bytes_identifiable2() {
    let bytes = cafebabe_baz_serialized();
    let mut de = Deserializer::new(&bytes, Some("Baz"));
    let cafebabe_baz_deserialized = read_baz(&mut de);

    assert_eq!(cafebabe_baz_deserialized, (u64::MAX, "beef".to_string()));
}

#[test]
fn test_enum_variant_from_reader_identifiable2() {
    let bytes = cafebabe_baz_serialized();
    let mut de = Deserializer::new(bytes.as_slice(), Some("Baz"));
    let cafebabe_baz_deserialized = read_baz(&mut de);

    assert_eq!(cafebabe_baz_deserialized, (u64::MAX, "beef".to_string()));
    assert_eq!(de.remaining_length(), 0);
}

/// MTProto-serialized data must be aligned by 4 bytes.
#[test]
fn test_serialization_alignment() {
    assert!(foo_serialized().len() % 4 == 0);
    assert!(cafebabe_bar_serialized().len() % 4 == 0);
    assert!(cafebabe_baz_serialized().len() % 4 == 0);
}
