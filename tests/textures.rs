use pob_render::{TextureIds, TextureRegistry, TextureUploadCmd, FALLBACK_TEXTURE};

#[test]
fn unregistered_id_resolves_like_zero() {
    let mut reg = TextureRegistry::new("white");
    reg.register(1, "one");
    assert_eq!(reg.resolve(999), reg.resolve(0));
    assert_eq!(*reg.resolve(999), "white");
    assert_eq!(reg.resolve_id(999), FALLBACK_TEXTURE);
    assert!(!reg.is_registered(999));
    reg.register(999, "late");
    assert_eq!(*reg.resolve(999), "late");
    assert_eq!(reg.resolve_id(999), 999);
}

#[test]
fn registration_replaces_but_never_zero() {
    let mut reg = TextureRegistry::new(0u8);
    reg.register(5, 50u8);
    reg.register(5, 51u8);
    assert_eq!(*reg.resolve(5), 51);
    reg.register(0, 99u8);
    assert_eq!(*reg.resolve(0), 0);
    assert!(reg.is_registered(0));
}

#[test]
fn upload_validity() {
    let ok = TextureUploadCmd { id: 3, rgba: vec![0; 2 * 3 * 4], width: 2, height: 3 };
    assert!(ok.is_valid());
    let short = TextureUploadCmd { id: 3, rgba: vec![0; 23], width: 2, height: 3 };
    assert!(!short.is_valid());
    let reserved = TextureUploadCmd { id: 0, rgba: vec![255; 4], width: 1, height: 1 };
    assert!(!reserved.is_valid());
    let empty = TextureUploadCmd { id: 4, rgba: vec![], width: 0, height: 7 };
    assert!(!empty.is_valid());
    let huge = TextureUploadCmd { id: 4, rgba: vec![], width: u32::MAX, height: u32::MAX };
    assert!(!huge.is_valid());
}

#[test]
fn texture_ids_count_from_one() {
    let mut ids = TextureIds::new();
    assert_eq!(ids.allocate(), Some(1));
    assert_eq!(ids.allocate(), Some(2));
    assert_eq!(ids.allocate(), Some(3));
}
