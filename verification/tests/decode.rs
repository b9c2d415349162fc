use inibin::de::{Deserializer, Request, VecCursor};
use inibin::{inibin_hash, Error, Float, FloatVec, FormatError, Value};

fn typed(str_len: u16, flags: u16, body: &[u8]) -> Vec<u8> {
    let mut out = vec![0x02u8];
    out.extend_from_slice(&str_len.to_le_bytes());
    out.extend_from_slice(&flags.to_le_bytes());
    out.extend_from_slice(body);
    out
}

fn key_list(keys: &[u32]) -> Vec<u8> {
    let mut out = Vec::new();
    out.extend_from_slice(&(keys.len() as u16).to_le_bytes());
    for key in keys {
        out.extend_from_slice(&key.to_le_bytes());
    }
    out
}

/// Stats.Health = 650, Stats.Mana = 300, Pos.X = (1.0, 2.0, 3.0),
/// Stats.Name = "Annie".
fn sample() -> Vec<u8> {
    let mut body = Vec::new();
    body.extend_from_slice(&key_list(&[
        inibin_hash("Stats", "Health"),
        inibin_hash("Stats", "Mana"),
    ]));
    body.extend_from_slice(&650i32.to_le_bytes());
    body.extend_from_slice(&300i32.to_le_bytes());
    body.extend_from_slice(&key_list(&[inibin_hash("Pos", "X")]));
    for x in [1.0f32, 2.0, 3.0] {
        body.extend_from_slice(&x.to_le_bytes());
    }
    body.extend_from_slice(&key_list(&[inibin_hash("Stats", "Name")]));
    body.extend_from_slice(&0u16.to_le_bytes());
    body.extend_from_slice(b"Annie\0");
    typed(6, (1 << 0) | (1 << 7) | (1 << 12), &body)
}

#[test]
fn session_starts_outside_any_struct() {
    let de = Deserializer::from_bytes(&sample()).unwrap();
    assert_eq!(de.depth(), 0);
    assert_eq!(de.inibin().map().len(), 4);
}

#[test]
fn session_refuses_bad_input() {
    assert_eq!(
        Deserializer::from_bytes(&[9]).err(),
        Some(FormatError::InvalidVersion)
    );
    assert_eq!(Deserializer::from_bytes(&[]).err(), Some(FormatError::Truncated));
    assert_eq!(
        Deserializer::from_bytes(&[2, 0, 0, 1, 0]).err(),
        Some(FormatError::Truncated)
    );
}

#[test]
fn walks_a_struct_field_by_field() {
    let mut de = Deserializer::from_bytes(&sample()).unwrap();
    de.enter_struct("Stats", &["Health", "Mana", "Name"]);
    assert_eq!(de.depth(), 1);
    assert_eq!(de.struct_name_hash(), 0x97b1f70b);
    assert_eq!(de.current_field_hash(), 0);
    assert_eq!(de.remaining_fields(), 3);

    assert_eq!(de.next_field(), Ok("Health"));
    assert_eq!(de.current_field_hash(), 0x43287347);
    assert_eq!(de.remaining_fields(), 2);
    assert_eq!(de.read_value(true), Ok(Some(&Value::I32(650))));

    assert_eq!(de.next_field(), Ok("Mana"));
    assert_eq!(de.current_field_hash(), 0x411be8b2);
    assert_eq!(de.read_value(true), Ok(Some(&Value::I32(300))));

    assert_eq!(de.next_field(), Ok("Name"));
    assert_eq!(de.read_value(true), Ok(Some(&Value::String("Annie".to_string()))));
    assert_eq!(de.remaining_fields(), 0);
    assert_eq!(de.struct_name_hash(), 0x97b1f70b);
}

#[test]
fn field_key_is_the_hash_of_struct_and_field() {
    let mut de = Deserializer::from_bytes(&sample()).unwrap();
    de.enter_struct("Stats", &["Health"]);
    assert_eq!(de.struct_name_hash(), inibin_hash("Stats", ""));
    assert_eq!(de.next_field(), Ok("Health"));
    assert_eq!(de.current_field_hash(), inibin_hash("Stats", "Health"));
}

#[test]
fn struct_and_field_names_ignore_case() {
    let mut de = Deserializer::from_bytes(&sample()).unwrap();
    de.enter_struct("STATS", &["hEALTH"]);
    assert_eq!(de.next_field(), Ok("hEALTH"));
    assert_eq!(de.read_value(true), Ok(Some(&Value::I32(650))));
}

#[test]
fn missing_required_field() {
    let mut de = Deserializer::from_bytes(&sample()).unwrap();
    de.enter_struct("Stats", &["Armor"]);
    assert_eq!(de.next_field(), Ok("Armor"));
    let key = inibin_hash("Stats", "Armor");
    assert_eq!(de.read_value(true), Err(Error::FieldNotFound(key)));
    assert_eq!(de.read_request(Request::I32), Err(Error::FieldNotFound(key)));
    assert_eq!(de.read_request(Request::Any), Err(Error::FieldNotFound(key)));
}

#[test]
fn missing_optional_field() {
    let mut de = Deserializer::from_bytes(&sample()).unwrap();
    de.enter_struct("Stats", &["Armor", "Health"]);
    assert_eq!(de.next_field(), Ok("Armor"));
    assert_eq!(de.read_value(false), Ok(None));
    assert_eq!(de.read_request(Request::Option), Ok(None));
    // The walk goes on with the next field.
    assert_eq!(de.next_field(), Ok("Health"));
    assert_eq!(de.read_value(false), Ok(Some(&Value::I32(650))));
    assert_eq!(de.read_request(Request::Option), Ok(Some(&Value::I32(650))));
}

#[test]
fn before_the_first_field_the_key_is_zero() {
    let mut de = Deserializer::from_bytes(&sample()).unwrap();
    de.enter_struct("Stats", &["Health"]);
    assert_eq!(de.current_field_hash(), 0);
    assert_eq!(de.read_value(true), Err(Error::FieldNotFound(0)));
    assert_eq!(de.read_value(false), Ok(None));
}

#[test]
fn schema_exhausted() {
    let mut de = Deserializer::from_bytes(&sample()).unwrap();
    de.enter_struct("Stats", &["Health"]);
    assert_eq!(de.next_field(), Ok("Health"));
    assert_eq!(de.next_field(), Err(Error::SchemaExhausted));
    // Nothing moved: the frame and its current field are as before.
    assert_eq!(de.depth(), 1);
    assert_eq!(de.current_field_hash(), inibin_hash("Stats", "Health"));
    assert_eq!(de.next_field(), Err(Error::SchemaExhausted));

    de.enter_struct("Empty", &[]);
    assert_eq!(de.next_field(), Err(Error::SchemaExhausted));
    assert_eq!(de.depth(), 2);
}

#[test]
fn served_kinds_hand_out_what_is_stored() {
    let mut de = Deserializer::from_bytes(&sample()).unwrap();
    de.enter_struct("Stats", &["Name"]);
    assert_eq!(de.next_field(), Ok("Name"));
    let stored = Value::String("Annie".to_string());
    let served = [
        Request::Any,
        Request::Bool,
        Request::I8,
        Request::I16,
        Request::I32,
        Request::I64,
        Request::I128,
        Request::U8,
        Request::U16,
        Request::U32,
        Request::U64,
        Request::F32,
        Request::String,
        Request::Option,
    ];
    for request in served {
        assert!(request.is_served());
        assert_eq!(request.is_required(), request != Request::Option);
        // The stored tag decides: nothing is coerced into the kind asked for.
        assert_eq!(de.read_request(request), Ok(Some(&stored)), "{:?}", request);
    }
}

#[test]
fn unserved_kinds_are_refused_whatever_is_stored() {
    let unserved = [
        Request::U128,
        Request::F64,
        Request::Char,
        Request::Str,
        Request::Bytes,
        Request::ByteBuf,
        Request::Unit,
        Request::UnitStruct,
        Request::NewtypeStruct,
        Request::Sequence,
        Request::Tuple,
        Request::TupleStruct,
        Request::Mapping,
        Request::Enum,
        Request::IgnoredAny,
    ];
    let mut de = Deserializer::from_bytes(&sample()).unwrap();
    de.enter_struct("Stats", &["Health", "Armor"]);
    assert_eq!(de.next_field(), Ok("Health"));
    for request in unserved {
        assert!(!request.is_served());
        assert_eq!(de.read_request(request), Err(Error::TypeUnsupported), "{:?}", request);
    }
    assert_eq!(de.next_field(), Ok("Armor"));
    for request in unserved {
        assert_eq!(de.read_request(request), Err(Error::TypeUnsupported), "{:?}", request);
    }
}

#[test]
fn nested_struct_is_seeded_by_its_own_name() {
    let mut de = Deserializer::from_bytes(&sample()).unwrap();
    de.enter_struct("Stats", &["Health", "Pos", "Mana"]);
    assert_eq!(de.next_field(), Ok("Health"));
    assert_eq!(de.next_field(), Ok("Pos"));
    let parent_key = de.current_field_hash();
    assert_eq!(parent_key, inibin_hash("Stats", "Pos"));

    de.enter_struct("Pos", &["X"]);
    assert_eq!(de.depth(), 2);
    assert_eq!(de.struct_name_hash(), inibin_hash("Pos", ""));
    assert_eq!(de.struct_name_hash(), 0x921728f6);
    assert_eq!(de.current_field_hash(), 0);
    assert_eq!(de.next_field(), Ok("X"));
    assert_eq!(de.current_field_hash(), inibin_hash("Pos", "X"));
    assert_eq!(de.current_field_hash(), 0x1ca91502);
    match de.read_value(true) {
        Ok(Some(Value::Vec(v))) => assert_eq!(
            v.as_slice(),
            &[
                Float::Bits(1.0f32.to_bits()),
                Float::Bits(2.0f32.to_bits()),
                Float::Bits(3.0f32.to_bits())
            ][..]
        ),
        other => panic!("not a vector: {:?}", other),
    }

    // Leaving the child resumes the parent where it stood.
    assert_eq!(de.next_key(), None);
    assert_eq!(de.depth(), 1);
    assert_eq!(de.struct_name_hash(), inibin_hash("Stats", ""));
    assert_eq!(de.current_field_hash(), parent_key);
    assert_eq!(de.remaining_fields(), 1);
    assert_eq!(de.next_key(), Some("Mana"));
    assert_eq!(de.read_value(true), Ok(Some(&Value::I32(300))));
    assert_eq!(de.next_key(), None);
    assert_eq!(de.depth(), 0);
}

#[test]
fn child_seed_is_the_same_at_any_depth() {
    let mut shallow = Deserializer::from_bytes(&sample()).unwrap();
    shallow.enter_struct("Pos", &["X"]);
    let mut deep = Deserializer::from_bytes(&sample()).unwrap();
    deep.enter_struct("Outer", &["a", "b"]);
    assert_eq!(deep.next_field(), Ok("a"));
    deep.enter_struct("Middle", &["c"]);
    assert_eq!(deep.next_field(), Ok("c"));
    deep.enter_struct("Pos", &["X"]);
    assert_eq!(deep.depth(), 3);
    assert_eq!(shallow.struct_name_hash(), deep.struct_name_hash());
    assert_eq!(shallow.next_field(), Ok("X"));
    assert_eq!(deep.next_field(), Ok("X"));
    assert_eq!(shallow.current_field_hash(), deep.current_field_hash());
    assert_eq!(deep.read_value(true), shallow.read_value(true));
}

#[test]
fn the_same_struct_can_nest_in_itself() {
    let mut de = Deserializer::from_bytes(&sample()).unwrap();
    de.enter_struct("Stats", &["Health", "Mana"]);
    assert_eq!(de.next_field(), Ok("Health"));
    de.enter_struct("Stats", &["Health", "Mana"]);
    assert_eq!(de.depth(), 2);
    assert_eq!(de.remaining_fields(), 2);
    assert_eq!(de.current_field_hash(), 0);
    assert_eq!(de.next_key(), Some("Health"));
    assert_eq!(de.next_key(), Some("Mana"));
    assert_eq!(de.next_key(), None);
    assert_eq!(de.depth(), 1);
    assert_eq!(de.remaining_fields(), 1);
    assert_eq!(de.current_field_hash(), inibin_hash("Stats", "Health"));
}

#[test]
fn next_key_leaves_an_empty_struct_at_once() {
    let mut de = Deserializer::from_bytes(&sample()).unwrap();
    de.enter_struct("Empty", &[]);
    assert_eq!(de.depth(), 1);
    assert_eq!(de.next_key(), None);
    assert_eq!(de.depth(), 0);
}

#[test]
fn vector_cursor_is_bounded() {
    let items = [Float::Bits(10), Float::Bits(20), Float::Bits(30)];
    let mut cursor = VecCursor::new(FloatVec::from_slice(&items));
    assert_eq!(cursor.remaining(), 3);
    assert_eq!(cursor.next_element(), Some(Float::Bits(10)));
    assert_eq!(cursor.next_element(), Some(Float::Bits(20)));
    assert_eq!(cursor.remaining(), 1);
    assert_eq!(cursor.next_element(), Some(Float::Bits(30)));
    assert_eq!(cursor.remaining(), 0);
    assert_eq!(cursor.next_element(), None);
    assert_eq!(cursor.next_element(), None);
    assert_eq!(cursor.remaining(), 0);
}

#[test]
fn vector_cursor_of_each_length() {
    for n in [0usize, 2, 3, 4] {
        let items: Vec<Float> = (0..n as u8).map(Float::Scaled).collect();
        let mut cursor = VecCursor::new(FloatVec::from_slice(&items));
        for (i, item) in items.iter().enumerate() {
            assert_eq!(cursor.remaining(), n - i);
            assert_eq!(cursor.read_element(), *item);
        }
        assert_eq!(cursor.remaining(), 0);
        assert_eq!(cursor.next_element(), None);
    }
}

#[test]
fn error_descriptions() {
    assert_eq!(Error::Message("custom".to_string()).description(), "custom");
    assert_eq!(Error::TypeUnsupported.description(), "Unsupported");
    assert_eq!(Error::FieldNotFound(7).description(), "FieldNotFound");
    assert_eq!(Error::SchemaExhausted.description(), "SchemaExhausted");
    assert_eq!(Error::Format(FormatError::Truncated).description(), "Truncated");
    assert_eq!(FormatError::InvalidVersion.description(), "InvalidVersion");
    assert_eq!(FormatError::Truncated.description(), "Truncated");
    assert_eq!(FormatError::InvalidString.description(), "InvalidString");
}

#[test]
fn format_errors_convert() {
    assert_eq!(
        Error::from(FormatError::InvalidString),
        Error::Format(FormatError::InvalidString)
    );
    let e: Error = FormatError::Truncated.into();
    assert_eq!(e, Error::Format(FormatError::Truncated));
    assert_eq!(e.clone(), e);
}
