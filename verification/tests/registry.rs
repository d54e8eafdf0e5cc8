use secure_channel::registry::{Registry, RegistryError, REGISTRY_CAPACITY, REGISTRY_IMAGE_SIZE};

const SEED: u32 = 0x4B1D;

#[test]
fn initialize_writes_fresh_registry() {
    let provisioned = vec![0x1001u32, 0x1002];
    let empty: Vec<u8> = Vec::new();
    let (reg, image) = Registry::initialize(SEED, &provisioned, empty.as_slice());
    assert_eq!(reg.list(), provisioned);
    let image = image.expect("an uninitialized store must be written");
    assert_eq!(image.len(), REGISTRY_IMAGE_SIZE);

    // Re-initializing against the written store is idempotent: same
    // contents, nothing written back.
    let (reg2, image2) = Registry::initialize(SEED, &provisioned, image.as_slice());
    assert_eq!(reg2.list(), provisioned);
    assert!(image2.is_none());
}

#[test]
fn swap_replaces_exactly_one_entry() {
    let provisioned = vec![0x1001u32, 0x1002, 0x3333];
    let empty: Vec<u8> = Vec::new();
    let (mut reg, _) = Registry::initialize(SEED, &provisioned, empty.as_slice());

    assert_eq!(reg.swap(0x1001, 0x2002), Ok(()));
    // Exactly that entry replaced, in place; count and the others kept.
    assert_eq!(reg.list(), vec![0x2002u32, 0x1002, 0x3333]);
}

#[test]
fn swap_of_absent_id_changes_nothing() {
    let provisioned = vec![0x1001u32, 0x1002];
    let empty: Vec<u8> = Vec::new();
    let (mut reg, _) = Registry::initialize(SEED, &provisioned, empty.as_slice());
    let before = reg.encode(SEED);

    assert_eq!(reg.swap(0xDEAD, 0x2002), Err(RegistryError::NotFound));
    // Byte-for-byte unchanged.
    assert_eq!(reg.encode(SEED), before);
    assert_eq!(reg.list(), provisioned);
}

#[test]
fn swap_to_an_already_provisioned_id_is_refused() {
    let provisioned = vec![0x1001u32, 0x1002];
    let empty: Vec<u8> = Vec::new();
    let (mut reg, _) = Registry::initialize(SEED, &provisioned, empty.as_slice());
    let before = reg.encode(SEED);

    assert_eq!(reg.swap(0x1001, 0x1002), Err(RegistryError::Duplicate));
    assert_eq!(reg.encode(SEED), before);

    // Swapping an identifier for itself is a plain successful replace.
    assert_eq!(reg.swap(0x1001, 0x1001), Ok(()));
    assert_eq!(reg.list(), provisioned);
}

#[test]
fn image_round_trips_through_storage() {
    let provisioned = vec![7u32, 8, 9, 10];
    let empty: Vec<u8> = Vec::new();
    let (reg, _) = Registry::initialize(SEED, &provisioned, empty.as_slice());
    let image = reg.encode(SEED);
    let decoded = Registry::decode(SEED, image.as_slice()).expect("own image must decode");
    assert_eq!(decoded.list(), provisioned);
}

#[test]
fn corrupt_storage_is_a_storage_error() {
    let provisioned = vec![1u32, 2];
    let empty: Vec<u8> = Vec::new();
    let (reg, _) = Registry::initialize(SEED, &provisioned, empty.as_slice());
    let good = reg.encode(SEED);

    // Wrong length.
    assert!(matches!(
        Registry::decode(SEED, &good[..REGISTRY_IMAGE_SIZE - 1]),
        Err(RegistryError::Storage)
    ));
    // Wrong magic word: a store initialized under a different seed.
    assert!(matches!(
        Registry::decode(SEED + 1, good.as_slice()),
        Err(RegistryError::Storage)
    ));
    // Count beyond capacity.
    let mut bad = good.clone();
    bad[4] = (REGISTRY_CAPACITY + 1) as u8;
    assert!(matches!(
        Registry::decode(SEED, bad.as_slice()),
        Err(RegistryError::Storage)
    ));
    // Duplicated identifiers.
    let (dup_reg, _) = Registry::initialize(SEED, &vec![5u32, 6], empty.as_slice());
    let mut dup_img = dup_reg.encode(SEED);
    // Overwrite the second slot with the first slot's word.
    for k in 0..4 {
        dup_img[12 + k] = dup_img[8 + k];
    }
    assert!(matches!(
        Registry::decode(SEED, dup_img.as_slice()),
        Err(RegistryError::Storage)
    ));
}

#[test]
fn initialize_recovers_from_corrupt_storage() {
    let provisioned = vec![0xAAu32, 0xBB];
    let garbage = vec![0xFFu8; REGISTRY_IMAGE_SIZE];
    let (reg, image) = Registry::initialize(SEED, &provisioned, garbage.as_slice());
    assert_eq!(reg.list(), provisioned);
    assert!(image.is_some());
}
