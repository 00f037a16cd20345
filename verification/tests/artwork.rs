use aria_player::artwork::{begin_store, cache_directory, Artwork, LookupStep, StoreStep};
use aria_player::extract::{Extraction, ExtractionError};
use aria_player::record::{AudioFileRecord, Field};
use sha2::{Digest, Sha256};
use std::collections::HashMap;

fn sha256_hex(data: &[u8]) -> String {
    Sha256::digest(data).iter().map(|byte| format!("{byte:02x}")).collect()
}

fn extraction(title: &str, cover: Option<Vec<u8>>) -> Extraction {
    let mut record = AudioFileRecord::new();
    record.insert(Field::Title, title.to_string());
    Extraction { record, artwork: cover.map(Artwork::new) }
}

/// Stores against a cache held in memory. Gives the record and the number of writes.
fn store(
    extraction: Extraction,
    cache: &mut HashMap<String, Vec<u8>>,
    disk_full: bool,
) -> (AudioFileRecord, usize) {
    let waiting = match begin_store(extraction) {
        StoreStep::Finished(record) => return (record, 0),
        StoreStep::CreateDirectory(waiting) => waiting,
    };
    let lookup = waiting.directory_created(Ok(())).unwrap();
    let found = cache.contains_key(lookup.name());
    match lookup.looked_up(found) {
        LookupStep::Finished(record) => (record, 0),
        LookupStep::Write(write) => {
            if !disk_full {
                cache.insert(write.name().clone(), write.data().clone());
            }
            (write.written(!disk_full), 1)
        }
    }
}

#[test]
fn cache_directory_has_its_fixed_name() {
    assert_eq!(cache_directory(), ".artwork-cache");
}

#[test]
fn artwork_is_named_by_the_sha256_of_its_bytes() {
    let data = vec![0xFF, 0xD8, 0xFF, 0xE0, 1, 2, 3];
    let artwork = Artwork::new(data.clone());
    assert_eq!(artwork.name(), &sha256_hex(&data));
    assert_eq!(artwork.data(), &data);
    assert_eq!(artwork.name().len(), 64);
}

#[test]
fn artwork_of_no_bytes_has_the_known_digest() {
    let artwork = Artwork::new(Vec::new());
    assert_eq!(
        artwork.name(),
        "e3b0c44298fc1c149afbf4c8996fb92427ae41e4649b934ca495991b7852b855"
    );
}

#[test]
fn artwork_of_abc_has_the_known_digest() {
    let artwork = Artwork::new(b"abc".to_vec());
    assert_eq!(
        artwork.name(),
        "ba7816bf8f01cfea414140de5dae2223b00361a396177a9cb410ff61f20015ad"
    );
}

#[test]
fn record_without_picture_is_finished_at_once() {
    let mut cache = HashMap::new();
    let (record, writes) = store(extraction("t", None), &mut cache, false);
    assert_eq!(writes, 0);
    assert!(cache.is_empty());
    assert!(!record.contains(Field::ArtworkUri));
    assert_eq!(record.get(Field::Title), Some(&"t".to_string()));
}

#[test]
fn picture_is_written_once_and_named_in_the_record() {
    let cover = vec![9, 8, 7];
    let mut cache = HashMap::new();
    let (record, writes) = store(extraction("t", Some(cover.clone())), &mut cache, false);
    assert_eq!(writes, 1);
    assert_eq!(record.get(Field::ArtworkUri), Some(&sha256_hex(&cover)));
    assert_eq!(cache.get(&sha256_hex(&cover)), Some(&cover));
    assert_eq!(record.get(Field::Title), Some(&"t".to_string()));
}

#[test]
fn storing_twice_writes_once() {
    let cover = vec![1, 2, 3, 4];
    let mut cache = HashMap::new();
    let (first, first_writes) = store(extraction("t", Some(cover.clone())), &mut cache, false);
    let (second, second_writes) = store(extraction("t", Some(cover.clone())), &mut cache, false);
    assert_eq!(first_writes, 1);
    assert_eq!(second_writes, 0);
    assert_eq!(first.get(Field::ArtworkUri), second.get(Field::ArtworkUri));
    assert_eq!(cache.len(), 1);
}

#[test]
fn two_files_with_one_cover_share_one_cached_file() {
    let cover = vec![0xFF, 0xD8, 0x00];
    let mut cache = HashMap::new();
    let (one, _) = store(extraction("one", Some(cover.clone())), &mut cache, false);
    let (other, writes) = store(extraction("other", Some(cover.clone())), &mut cache, false);
    assert_eq!(writes, 0);
    assert_eq!(one.get(Field::ArtworkUri), other.get(Field::ArtworkUri));
    assert_eq!(cache.len(), 1);
    assert_eq!(other.get(Field::Title), Some(&"other".to_string()));
}

#[test]
fn different_covers_get_different_names() {
    let mut cache = HashMap::new();
    let (one, _) = store(extraction("one", Some(vec![1])), &mut cache, false);
    let (other, _) = store(extraction("other", Some(vec![2])), &mut cache, false);
    assert_ne!(one.get(Field::ArtworkUri), other.get(Field::ArtworkUri));
    assert_eq!(cache.len(), 2);
}

#[test]
fn failed_write_leaves_the_artwork_out() {
    let mut cache = HashMap::new();
    let (record, writes) = store(extraction("t", Some(vec![5, 5])), &mut cache, true);
    assert_eq!(writes, 1);
    assert!(!record.contains(Field::ArtworkUri));
    assert_eq!(record.get(Field::Title), Some(&"t".to_string()));
}

#[test]
fn directory_that_cannot_be_created_fails_the_extraction() {
    let waiting = match begin_store(extraction("t", Some(vec![1]))) {
        StoreStep::CreateDirectory(waiting) => waiting,
        StoreStep::Finished(_) => panic!("a picture has to be stored"),
    };
    match waiting.directory_created(Err("read-only file system".to_string())) {
        Err(ExtractionError::Io(message)) => assert_eq!(message, "read-only file system"),
        other => panic!("{other:?}"),
    }
}
