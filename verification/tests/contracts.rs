use openengine::bytes::{push_word, read_word};
use openengine::contracts::basics::{
    abi_fingerprint, abi_is_current, AssetKind, AssetRef, FixedString, InputState3D, NetState,
    PlayerInput, ARCH_VERSION, COMPONENT_LAYOUT_VERSION,
};
use openengine::contracts::code;
use openengine::contracts::comp;
use openengine::contracts::components::{Actor, Color, Component, Position, Transform, Velocity3D};
use openengine::contracts::delta::{
    decode_delta, encode_delta, ArchetypeId, ColumnDescriptor, ColumnWrite, ComponentId,
    DeferredCommand, Entity, FatalError, RecoverableError, RenderKind, SpawnCommand, StateView,
    WorldDelta,
};
use openengine::contracts::wire::{Wire, WireError};
use openengine::fx::Fx16;

fn full_delta() -> WorldDelta {
    WorldDelta {
        spawns: vec![SpawnCommand {
            archetype: ArchetypeId(300),
            preferred: Some(Entity { generation: 7, index: 9 }),
            initial: vec![ColumnWrite {
                archetype: ArchetypeId(1),
                component: ComponentId(2),
                indices: vec![0, 128, u32::MAX],
                payload: vec![1, 2, 255],
            }],
        }],
        despawns: vec![Entity { generation: 0, index: 5 }, Entity::invalid()],
        writes: vec![],
        deferred: vec![
            DeferredCommand::Render {
                entity: Entity { generation: 1, index: 2 },
                kind: RenderKind::Gizmo,
            },
            DeferredCommand::Emit { topic: 4, data: vec![9, 8] },
            DeferredCommand::ClearColor {
                rgba: [1f32.to_bits(), 0.5f32.to_bits(), 0f32.to_bits(), 1f32.to_bits()],
            },
        ],
        warnings: vec![
            RecoverableError::numeric(3),
            RecoverableError::detailed(4, "h\u{e9}".to_string()),
        ],
    }
}

#[test]
fn arch_matches() {
    assert_eq!(ARCH_VERSION, 2);
}

#[test]
fn entity_is_pod_and_expected_size() {
    assert_eq!(std::mem::size_of::<Entity>(), 8);
    assert_eq!(std::mem::size_of::<ColumnDescriptor>(), 16);
}

#[test]
fn roundtrip_delta() {
    let d = WorldDelta {
        spawns: vec![SpawnCommand {
            archetype: ArchetypeId(0),
            preferred: None,
            initial: vec![],
        }],
        ..Default::default()
    };
    let bytes = encode_delta(&d).unwrap();
    let back = decode_delta(&bytes).unwrap();
    assert_eq!(back.spawns.len(), 1);
}

#[test]
fn delta_bytes_are_varints_and_little_endian_floats() {
    let bytes = encode_delta(&full_delta()).unwrap();
    let expected: Vec<u8> = vec![
        1, 172, 2, 1, 7, 9, 1, 1, 2, 3, 0, 128, 1, 255, 255, 255, 255, 15, 3, 1, 2, 255, // spawns
        2, 0, 5, 0, 255, 255, 255, 255, 15, // despawns
        0,  // writes
        3, 0, 1, 2, 2, 1, 4, 2, 9, 8, 2, 0, 0, 128, 63, 0, 0, 0, 63, 0, 0, 0, 0, 0, 0, 128,
        63, // deferred
        2, 3, 0, 4, 1, 3, 104, 195, 169, // warnings
    ];
    assert_eq!(bytes, expected);
}

#[test]
fn every_part_of_a_delta_comes_back() {
    let d = full_delta();
    let back = decode_delta(&encode_delta(&d).unwrap()).unwrap();
    assert_eq!(back.spawns.len(), 1);
    assert_eq!(back.spawns[0].archetype, ArchetypeId(300));
    assert_eq!(back.spawns[0].preferred, Some(Entity { generation: 7, index: 9 }));
    assert_eq!(back.spawns[0].initial[0].indices, vec![0, 128, u32::MAX]);
    assert_eq!(back.spawns[0].initial[0].payload, vec![1, 2, 255]);
    assert_eq!(back.despawns, vec![Entity { generation: 0, index: 5 }, Entity::invalid()]);
    assert_eq!(back.writes.len(), 0);
    assert_eq!(back.deferred.len(), 3);
    assert_eq!(back.clear_color(), Some([1f32.to_bits(), 0.5f32.to_bits(), 0, 1f32.to_bits()]));
    assert_eq!(back.warnings[0].message, None);
    assert_eq!(back.warnings[1].message, Some("h\u{e9}".to_string()));
    assert_eq!(encode_delta(&back).unwrap(), encode_delta(&d).unwrap());
}

#[test]
fn delta_bytes_are_those_of_postcard() {
    // Nested tuples have the bytes of the structs they stand for, and a two-way
    // result has those of the first two deferred commands.
    type Write = (u32, u32, Vec<u32>, Vec<u8>);
    type Spawn = (u32, Option<(u32, u32)>, Vec<Write>);
    type Deferred = Result<((u32, u32), u32), (u32, Vec<u8>)>;
    type Delta =
        (Vec<Spawn>, Vec<(u32, u32)>, Vec<Write>, Vec<Deferred>, Vec<(u32, Option<String>)>);
    let mut d = full_delta();
    d.deferred.truncate(2);
    let bytes = encode_delta(&d).unwrap();
    let (plain, rest): (Delta, &[u8]) = postcard::take_from_bytes(&bytes).unwrap();
    assert!(rest.is_empty());
    assert_eq!(plain.0[0].1, Some((7, 9)));
    assert_eq!(plain.0[0].2[0], (1, 2, vec![0, 128, u32::MAX], vec![1, 2, 255]));
    assert_eq!(plain.1, vec![(0, 5), (0, u32::MAX)]);
    assert_eq!(plain.3, vec![Ok(((1, 2), 2)), Err((4, vec![9, 8]))]);
    assert_eq!(plain.4, vec![(3, None), (4, Some("h\u{e9}".to_string()))]);
    assert_eq!(postcard::to_allocvec(&plain).unwrap(), bytes);
}

#[test]
fn different_deltas_have_different_bytes() {
    let a = encode_delta(&WorldDelta::default()).unwrap();
    let mut d = WorldDelta::default();
    d.despawns.push(Entity { generation: 0, index: 0 });
    assert_eq!(a, vec![0u8; 5]);
    assert_ne!(a, encode_delta(&d).unwrap());
}

#[test]
fn bad_bytes_are_refused() {
    // A cut-off delta.
    assert!(matches!(decode_delta(&[]), Err(WireError::UnexpectedEnd)));
    assert!(matches!(decode_delta(&[0, 0]), Err(WireError::UnexpectedEnd)));
    // A varint that never ends.
    assert!(matches!(decode_delta(&[255; 12]), Err(WireError::BadVarint)));
    // An option tag that is neither zero nor one.
    assert!(matches!(decode_delta(&[1, 0, 2]), Err(WireError::BadOption)));
    // An unknown deferred command.
    assert!(matches!(decode_delta(&[0, 0, 0, 1, 3]), Err(WireError::BadVariant)));
    // A message that is no text.
    assert!(matches!(
        decode_delta(&[0, 0, 0, 0, 1, 3, 1, 1, 255]),
        Err(WireError::BadUtf8)
    ));
    // Bytes behind the value are left alone.
    assert!(decode_delta(&[0, 0, 0, 0, 0, 77]).is_ok());
}

#[test]
fn varint_values() {
    let cases: [(u32, Vec<u8>); 5] = [
        (0, vec![0]),
        (127, vec![127]),
        (128, vec![128, 1]),
        (300, vec![172, 2]),
        (u32::MAX, vec![255, 255, 255, 255, 15]),
    ];
    for (v, b) in cases {
        let mut out: Vec<u8> = Vec::new();
        v.put(&mut out);
        assert_eq!(out, b);
        assert_eq!(u32::take(&out, 0), Ok((v, out.len())));
    }
    // Five bytes that hold more than a word.
    assert_eq!(u32::take(&[255, 255, 255, 255, 16], 0), Err(WireError::BadVarint));
    // A length is as wide as a machine word.
    let long = Vec::<u8>::take(&[128, 128, 128, 128, 128, 0], 0);
    if usize::BITS == 32 {
        assert_eq!(long, Err(WireError::BadVarint));
    } else {
        assert_eq!(long, Ok((vec![], 6)));
    }
}

#[test]
fn words_are_little_endian() {
    let mut out: Vec<u8> = vec![7];
    push_word(&mut out, 0x01020304);
    assert_eq!(out, vec![7, 4, 3, 2, 1]);
    assert_eq!(read_word(&out, 1), 0x01020304);
}

#[test]
fn abi_values() {
    assert!(abi_is_current());
    assert_eq!(COMPONENT_LAYOUT_VERSION, 1);
    assert_eq!(abi_fingerprint(), ((ARCH_VERSION as u64) << 32) | 0x0E45_0001);
    assert_eq!(code::UNKNOWN_ARCHETYPE, 1);
    assert_eq!(code::OUT_OF_RANGE_ENTITY, 2);
    assert_eq!(code::MISALIGNED_PAYLOAD, 3);
    assert_eq!(code::GUEST_PANIC, 4);
    assert_eq!(code::DELTA_BUDGET_EXCEEDED, 5);
    assert_eq!(code::DUPLICATE_LIFECYCLE, 6);
    assert_eq!(comp::TRANSFORM, 2);
    assert_eq!(comp::VELOCITY3D, 80);
    assert_eq!(comp::ACTOR, 81);
}

#[test]
fn asset_kinds_have_distinct_numbers() {
    let kinds = [
        AssetKind::Texture,
        AssetKind::Mesh,
        AssetKind::Audio,
        AssetKind::Shader,
        AssetKind::Font,
        AssetKind::Scene,
    ];
    for i in 0..kinds.len() {
        assert_eq!(AssetKind::from_u8(kinds[i].to_u8()), Some(kinds[i]));
        for j in 0..i {
            assert_ne!(kinds[i].to_u8(), kinds[j].to_u8());
        }
    }
    assert_eq!(AssetKind::from_u8(200), None);
    assert_eq!(AssetRef::new(5, AssetKind::Audio).kind(), AssetKind::Audio);
    assert_eq!(AssetRef::none().id, 0);
}

#[test]
fn fixed_strings_keep_and_cut_text() {
    let s: FixedString<8> = FixedString::new("hello");
    assert_eq!(s.as_str(), "hello");
    let cut: FixedString<3> = FixedString::new("hello");
    assert_eq!(cut.as_str(), "hel");
    // Of a character that was cut nothing is shown.
    let half: FixedString<2> = FixedString::new("a\u{e9}");
    assert_eq!(half.as_str(), "a");
    assert_eq!(FixedString::<3>::new("a\u{e9}").as_str(), "a\u{e9}");
    let text = "x\u{e9}\u{20ac}\u{1f600}y";
    assert_eq!(FixedString::<4>::new(text).as_str(), "x\u{e9}");
    assert_eq!(FixedString::<5>::new(text).as_str(), "x\u{e9}");
    assert_eq!(FixedString::<6>::new(text).as_str(), "x\u{e9}\u{20ac}");
    assert_eq!(FixedString::<9>::new(text).as_str(), "x\u{e9}\u{20ac}");
    assert_eq!(FixedString::<10>::new(text).as_str(), "x\u{e9}\u{20ac}\u{1f600}");
    assert_eq!(FixedString::<11>::new(text).as_str(), text);
    assert_eq!(FixedString::<1>::new("\u{1f600}").as_str(), "");
    // Bytes that are no text are shown with replacements.
    let raw = FixedString { bytes: [b'a', 0xff, b'b'], len: 3 };
    assert_eq!(raw.as_str(), "a\u{fffd}b");
    let rest = FixedString { bytes: [0x80, 0x80], len: 2 };
    assert_eq!(rest.as_str(), "\u{fffd}\u{fffd}");
    // So are bytes at the end that begin no character.
    for b in [0xc0, 0xc1, 0xf5, 0xff] {
        assert_eq!(FixedString { bytes: [b], len: 1 }.as_str(), "\u{fffd}");
    }
    for pair in [[0xe0, 0x80], [0xed, 0xa0], [0xf0, 0x8f], [0xf4, 0x90]] {
        assert_eq!(FixedString { bytes: pair, len: 2 }.as_str(), "\u{fffd}\u{fffd}");
    }
    for pair in [[0xe0, 0xa0], [0xed, 0x9f], [0xf0, 0x90], [0xf4, 0x8f]] {
        assert_eq!(FixedString { bytes: pair, len: 2 }.as_str(), "");
    }
    assert_eq!(FixedString { bytes: [b'a', 0xf1, 0x80, 0x80], len: 4 }.as_str(), "a");
    assert_eq!(FixedString::<4>::empty().as_str(), "");
}

#[test]
fn inputs_start_at_rest() {
    let p = PlayerInput::none();
    assert_eq!((p.up, p.down, p.left, p.right), (0, 0, 0, 0));
    assert_eq!(PlayerInput::default(), PlayerInput::none());
    let i = InputState3D::none();
    assert_eq!((i.forward, i.backward, i.left, i.right, i.jump), (0, 0, 0, 0, 0));
    let n = NetState { tick: 1, player_id: 2, input_hash: 3 };
    assert_eq!(n, NetState { tick: 1, player_id: 2, input_hash: 3 });
}

#[test]
fn error_texts() {
    assert_eq!(RecoverableError::numeric(3).to_text(), "OpenEngine ABI error 0x0003");
    assert_eq!(
        RecoverableError::detailed(0x12, "oops".to_string()).to_text(),
        "OpenEngine ABI error 0x0012: oops"
    );
    assert_eq!(FatalError::numeric(3).to_text(), "OpenEngine fatal 0x0003");
    assert_eq!(FatalError::detailed(0xab, "x".to_string()).to_text(), "OpenEngine fatal 0x00AB: x");
}

#[test]
fn columns_of_a_view() {
    let arena: Vec<u8> = (0u8..40u8).collect();
    let cols = [
        ColumnDescriptor {
            component_id: ComponentId(2),
            element_size: 4,
            count: 3,
            data_offset: 8,
        },
        ColumnDescriptor {
            component_id: ComponentId(9),
            element_size: 1,
            count: 2,
            data_offset: 0,
        },
    ];
    let v = StateView { tick: 1, columns: &cols, arena: &arena, byte_budget: 10 };
    let c = v.column(ComponentId(2)).unwrap();
    assert_eq!(c.bytes(&arena), &arena[8..20]);
    assert!(v.column(ComponentId(3)).is_none());
    assert_eq!(StateView::tick_only(4).tick, 4);
    assert!(StateView::tick_only(4).column(ComponentId(2)).is_none());
}

#[test]
fn component_images() {
    let one = Fx16::from_num(1);
    let t = Transform::at(one, Fx16::from_num(-2), Fx16::from_num(0));
    assert_eq!(t.to_words().len(), 10);
    assert_eq!(Transform::from_words(&t.to_words()), t);
    assert_eq!(t.rotation, [Fx16::from_num(0), Fx16::from_num(0), Fx16::from_num(0), one]);
    let c = Color { r: 1, g: 2, b: 3, a: 4 };
    assert_eq!(c.to_words(), vec![0x04030201]);
    assert_eq!(Color::from_words(&vec![0x04030201]), c);
    assert_eq!(Color::white(), Color { r: 255, g: 255, b: 255, a: 255 });
    let p = Position { x: Fx16::from_bits(-1), y: one };
    assert_eq!(p.to_words(), vec![u32::MAX, 65536]);
    let a = Actor::player(one, one);
    assert_eq!(Actor::from_words(&a.to_words()), a);
    assert_eq!(Actor::npc(3, 7).kind, 3);
    assert_eq!(Actor::npc(3, 7).seed, 7);
    assert_eq!(Velocity3D::zero().linear, [Fx16::from_num(0); 3]);
}
