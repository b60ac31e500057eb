//! The identifier codec and the blend-mode code mapping.

use render_wasm::blend::BlendMode;
use render_wasm::ident::{from_quartet, to_key, Identifier};

#[test]
fn from_quartet_is_deterministic_and_structural() {
    let a = from_quartet(1, 2, 3, 4);
    let b = from_quartet(1, 2, 3, 4);
    assert_eq!(a, b);
    assert_ne!(a, from_quartet(1, 2, 3, 5));
    assert_ne!(a, from_quartet(4, 3, 2, 1));
}

#[test]
fn to_key_exact_value() {
    let id = from_quartet(1, 2, 3, 0xdeadbeef);
    let key = to_key(id);
    assert_eq!(key, b"00000001-00000002-00000003-deadbeef".to_vec());
}

#[test]
fn to_key_is_deterministic() {
    let id = from_quartet(0xffff_ffff, 0, 0x1234_5678, 42);
    assert_eq!(to_key(id), to_key(id));
}

#[test]
fn to_key_has_no_collisions_over_a_corpus() {
    let words = [0u32, 1, 2, 0xff, 0x100, 0xdead_beef, 0xffff_ffff];
    let mut keys: Vec<Vec<u8>> = Vec::new();
    let mut ids: Vec<Identifier> = Vec::new();
    for &a in &words {
        for &d in &words {
            let id = from_quartet(a, a ^ 0x55, d.wrapping_mul(3), d);
            if !ids.contains(&id) {
                ids.push(id);
                keys.push(to_key(id));
            }
        }
    }
    for i in 0..keys.len() {
        for j in (i + 1)..keys.len() {
            assert_ne!(keys[i], keys[j], "distinct identifiers collided in a key");
        }
    }
}

#[test]
fn blend_mode_mapping_is_total_with_normal_default() {
    assert_eq!(BlendMode::from_code(1), BlendMode::Darken);
    assert_eq!(BlendMode::from_code(2), BlendMode::Multiply);
    assert_eq!(BlendMode::from_code(5), BlendMode::Screen);
    assert_eq!(BlendMode::from_code(10), BlendMode::Difference);
    assert_eq!(BlendMode::from_code(15), BlendMode::Luminosity);
    assert_eq!(BlendMode::from_code(0), BlendMode::Normal);
    assert_eq!(BlendMode::from_code(16), BlendMode::Normal);
    assert_eq!(BlendMode::from_code(-7), BlendMode::Normal);
    assert_eq!(BlendMode::from_code(i32::MAX), BlendMode::Normal);
    assert_eq!(BlendMode::from_code(i32::MIN), BlendMode::Normal);
    assert_eq!(BlendMode::default(), BlendMode::Normal);
}
