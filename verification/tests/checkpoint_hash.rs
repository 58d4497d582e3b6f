use sha2::{Digest, Sha256};
use verifiable_intelligence::errors::ViError;
use verifiable_intelligence::keygen::{
    canonical_checkpoint_files, checkpoint_hash, not_a_directory, read_error, CheckpointHash,
    CheckpointListing, DirEntry, EntryName, ListedEntry,
};

/// A listing of a directory holding these files, in this order.
fn listing_of(files: &[(&str, &str)]) -> CheckpointListing {
    let has = |name: &str| files.iter().any(|(n, _)| *n == name);
    CheckpointListing {
        dir: "/tmp/checkpoint".to_owned(),
        has_config: has("config.json"),
        has_tokenizer: has("tokenizer.json"),
        has_tokenizer_model: has("tokenizer.model"),
        entries: Ok(files
            .iter()
            .map(|(name, _)| {
                ListedEntry::Entry(DirEntry {
                    is_file: true,
                    name: EntryName::Utf8((*name).to_owned()),
                })
            })
            .collect()),
    }
}

/// The canonical hash of a directory holding these files.
fn hash_of(files: &[(&str, &str)]) -> Result<CheckpointHash, ViError> {
    let names = canonical_checkpoint_files(&listing_of(files))?;
    let contents = names
        .iter()
        .map(|name| {
            let (_, body) = files.iter().find(|(n, _)| n == name).expect("listed file");
            body.as_bytes().to_vec()
        })
        .collect();
    Ok(checkpoint_hash(names, &contents))
}

fn sha256(chunks: &[&str]) -> [u8; 32] {
    let mut hasher = Sha256::new();
    for chunk in chunks {
        hasher.update(chunk.as_bytes());
    }
    hasher.finalize().into()
}

fn input(arg: &str, reason: &str) -> ViError {
    ViError::Input { arg: arg.to_owned(), reason: reason.to_owned(), detail: None }
}

#[test]
fn hashes_tiny_checkpoint_in_canonical_order() {
    let hash = hash_of(&[
        ("model-00002-of-00002.safetensors", "weights-b"),
        ("tokenizer.model", "tokenizer-model"),
        ("config.json", "config"),
        ("model-00001-of-00002.safetensors", "weights-a"),
        ("tokenizer.json", "tokenizer-json"),
    ])
    .expect("checkpoint should hash");

    assert_eq!(
        hash.files,
        vec![
            "config.json".to_owned(),
            "model-00001-of-00002.safetensors".to_owned(),
            "model-00002-of-00002.safetensors".to_owned(),
            "tokenizer.json".to_owned(),
            "tokenizer.model".to_owned(),
        ]
    );
    assert_eq!(
        hash.hash,
        sha256(&["config", "weights-a", "weights-b", "tokenizer-json", "tokenizer-model"])
    );
    assert_eq!(hash.hash_hex().len(), 64);
}

#[test]
fn safetensor_creation_order_does_not_change_hash() {
    let first = hash_of(&[
        ("config.json", "config"),
        ("b.safetensors", "weights-b"),
        ("a.safetensors", "weights-a"),
        ("tokenizer.json", "tokenizer"),
    ])
    .expect("first hashes");
    let second = hash_of(&[
        ("tokenizer.json", "tokenizer"),
        ("a.safetensors", "weights-a"),
        ("config.json", "config"),
        ("b.safetensors", "weights-b"),
    ])
    .expect("second hashes");

    assert_eq!(first, second);
}

#[test]
fn renaming_safetensor_changes_hash_deterministically() {
    let original = hash_of(&[
        ("config.json", "config"),
        ("a.safetensors", "weights-a"),
        ("b.safetensors", "weights-b"),
        ("tokenizer.json", "tokenizer"),
    ])
    .expect("original hashes");
    let renamed = hash_of(&[
        ("config.json", "config"),
        ("z.safetensors", "weights-a"),
        ("b.safetensors", "weights-b"),
        ("tokenizer.json", "tokenizer"),
    ])
    .expect("renamed hashes");

    assert_eq!(
        renamed.files,
        vec![
            "config.json".to_owned(),
            "b.safetensors".to_owned(),
            "z.safetensors".to_owned(),
            "tokenizer.json".to_owned(),
        ]
    );
    assert_ne!(original.hash, renamed.hash);
    assert_eq!(renamed.hash, sha256(&["config", "weights-b", "weights-a", "tokenizer"]));
}

#[test]
fn missing_required_files_return_input_error() {
    assert_eq!(
        hash_of(&[("tokenizer.json", "{}"), ("model.safetensors", "weights")]),
        Err(input("checkpoint", "checkpoint directory is missing required file config.json"))
    );
    assert_eq!(
        hash_of(&[("config.json", "{}"), ("model.safetensors", "weights")]),
        Err(input("checkpoint", "checkpoint directory is missing required file tokenizer.json"))
    );
    assert_eq!(
        hash_of(&[("config.json", "{}"), ("tokenizer.json", "{}")]),
        Err(input("checkpoint", "checkpoint directory has no *.safetensors files"))
    );
}

#[test]
fn only_regular_files_with_the_extension_are_weights() {
    let mut listing = listing_of(&[("config.json", ""), ("tokenizer.json", "")]);
    listing.entries = Ok(vec![
        ListedEntry::Entry(DirEntry { is_file: true, name: EntryName::Utf8(".safetensors".to_owned()) }),
        ListedEntry::Entry(DirEntry { is_file: false, name: EntryName::Utf8("dir.safetensors".to_owned()) }),
        ListedEntry::Entry(DirEntry { is_file: true, name: EntryName::Utf8("x.safetensors.bak".to_owned()) }),
        ListedEntry::Entry(DirEntry { is_file: true, name: EntryName::NonUtf8 { safetensors_extension: false } }),
        ListedEntry::Entry(DirEntry { is_file: true, name: EntryName::Utf8("..safetensors".to_owned()) }),
        ListedEntry::Entry(DirEntry { is_file: true, name: EntryName::Utf8("B.safetensors".to_owned()) }),
    ]);
    assert_eq!(
        canonical_checkpoint_files(&listing),
        Ok(vec![
            "config.json".to_owned(),
            "..safetensors".to_owned(),
            "B.safetensors".to_owned(),
            "tokenizer.json".to_owned(),
        ])
    );
}

#[test]
fn unreadable_listings_and_names_are_input_errors() {
    let mut listing = listing_of(&[("config.json", ""), ("tokenizer.json", "")]);
    listing.entries = Err("permission denied".to_owned());
    assert_eq!(
        canonical_checkpoint_files(&listing),
        Err(input("/tmp/checkpoint", "failed to read checkpoint path: permission denied"))
    );
    listing.entries = Ok(vec![
        ListedEntry::Entry(DirEntry { is_file: true, name: EntryName::NonUtf8 { safetensors_extension: true } }),
        ListedEntry::Unreadable { error: "io".to_owned() },
    ]);
    assert_eq!(
        canonical_checkpoint_files(&listing),
        Err(input("checkpoint", "checkpoint contains a non-UTF-8 safetensors filename"))
    );
    listing.entries = Ok(vec![ListedEntry::Unreadable { error: "io".to_owned() }]);
    assert_eq!(
        canonical_checkpoint_files(&listing),
        Err(input("/tmp/checkpoint", "failed to read checkpoint path: io"))
    );
    assert_eq!(not_a_directory(), input("checkpoint", "checkpoint path is not a directory"));
    assert_eq!(
        read_error("/x/config.json", "denied"),
        input("/x/config.json", "failed to read checkpoint path: denied")
    );
}

#[test]
fn hash_hex_is_lowercase_hex_of_the_digest() {
    let mut hash = [0u8; 32];
    hash[0] = 0xab;
    hash[31] = 0x0f;
    let h = CheckpointHash { hash, files: Vec::new() };
    let hex = h.hash_hex();
    assert_eq!(hex.len(), 64);
    assert!(hex.starts_with("ab00"));
    assert!(hex.ends_with("000f"));
}
