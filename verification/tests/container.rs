use aria_player::artwork::{begin_store, LookupStep, StoreStep};
use aria_player::extract::{
    extract_metadata, read_file, read_tag, ExtractionError, FileStat, Timestamp,
};
use aria_player::record::Field;
use aria_player::scan::{scan_directory, DirEntry, PathKind, ScanStep};
use lofty::config::WriteOptions;
use lofty::error::LoftyError;
use lofty::file::{FileType, TaggedFile};
use lofty::picture::{MimeType, Picture, PictureType};
use lofty::probe::Probe;
use lofty::properties::FileProperties;
use lofty::tag::{ItemKey, ItemValue, Tag, TagExt, TagItem, TagType};
use sha2::{Digest, Sha256};
use std::collections::HashMap;
use std::io::Cursor;
use std::time::Duration;

fn sha256_hex(data: &[u8]) -> String {
    Sha256::digest(data).iter().map(|byte| format!("{byte:02x}")).collect()
}

fn stat(size: usize) -> FileStat {
    FileStat {
        size: size as u64,
        modified: Timestamp::SinceEpoch { secs: 1_600_000_000, nanos: 5_000_000 },
    }
}

/// Parses bytes as the container that the extension stands for.
fn probe(extension: &str, bytes: &[u8]) -> Result<TaggedFile, LoftyError> {
    match FileType::from_ext(extension) {
        Some(file_type) => Probe::with_file_type(Cursor::new(bytes), file_type).read(),
        None => Probe::new(Cursor::new(bytes)).read(),
    }
}

fn extract(
    stat: &FileStat,
    extension: &str,
    bytes: &[u8],
) -> Result<aria_player::extract::Extraction, ExtractionError> {
    extract_metadata(stat, probe(extension, bytes).map_err(|error| error.to_string()))
}

fn text(key: ItemKey, value: &str) -> TagItem {
    TagItem::new(key, ItemValue::Text(value.to_string()))
}

/// A FLAC stream of one second at 44100 Hz, with the given blocks behind the
/// stream information.
fn flac(blocks: &[(u8, Vec<u8>)]) -> Vec<u8> {
    let mut bytes = b"fLaC".to_vec();
    let mut info = vec![0x10, 0x00, 0x10, 0x00, 0, 0, 0, 0, 0, 0];
    // 44100 Hz, 2 channels, 16 bits, 44100 samples
    let packed: u64 = (44_100u64 << 44) | (1u64 << 41) | (15u64 << 36) | 44_100u64;
    info.extend_from_slice(&packed.to_be_bytes());
    info.extend_from_slice(&[0u8; 16]);
    let last = blocks.is_empty();
    bytes.push(if last { 0x80 } else { 0x00 });
    bytes.extend_from_slice(&(info.len() as u32).to_be_bytes()[1..]);
    bytes.extend_from_slice(&info);
    for (position, (kind, content)) in blocks.iter().enumerate() {
        let last = position + 1 == blocks.len();
        bytes.push(if last { 0x80 | kind } else { *kind });
        bytes.extend_from_slice(&(content.len() as u32).to_be_bytes()[1..]);
        bytes.extend_from_slice(content);
    }
    bytes.extend_from_slice(&[0xFF, 0xF8, 0, 0, 0, 0, 0, 0]);
    bytes
}

fn flac_picture(data: &[u8]) -> Vec<u8> {
    let mime = b"image/jpeg";
    let mut block = Vec::new();
    block.extend_from_slice(&3u32.to_be_bytes());
    block.extend_from_slice(&(mime.len() as u32).to_be_bytes());
    block.extend_from_slice(mime);
    block.extend_from_slice(&0u32.to_be_bytes());
    block.extend_from_slice(&[0u8; 16]);
    block.extend_from_slice(&(data.len() as u32).to_be_bytes());
    block.extend_from_slice(data);
    block
}

fn vorbis_comments(comments: &[&str]) -> Vec<u8> {
    let mut block = Vec::new();
    block.extend_from_slice(&0u32.to_le_bytes());
    block.extend_from_slice(&(comments.len() as u32).to_le_bytes());
    for comment in comments {
        block.extend_from_slice(&(comment.len() as u32).to_le_bytes());
        block.extend_from_slice(comment.as_bytes());
    }
    block
}

/// MPEG-1 layer III frames, 128 kbit/s at 44100 Hz.
fn mp3_frames(count: usize) -> Vec<u8> {
    let mut bytes = Vec::new();
    for _ in 0..count {
        bytes.extend_from_slice(&[0xFF, 0xFB, 0x90, 0x64]);
        bytes.extend(std::iter::repeat(0u8).take(413));
    }
    bytes
}

fn mp3_with(tag: &Tag) -> Vec<u8> {
    let mut file = Cursor::new(mp3_frames(40));
    tag.save_to(&mut file, WriteOptions::default()).unwrap();
    file.into_inner()
}

#[test]
fn tag_fields_are_read_through_lofty() {
    let mut tag = Tag::new(TagType::VorbisComments);
    tag.push(text(ItemKey::TrackArtist, "A"));
    tag.push(text(ItemKey::TrackArtist, "B"));
    tag.push(text(ItemKey::Genre, "Jazz"));
    tag.push(text(ItemKey::Composer, "C"));
    tag.push(text(ItemKey::Comment, "fine"));
    tag.push(text(ItemKey::TrackTitle, "Song"));
    tag.push(text(ItemKey::AlbumTitle, "Album"));
    tag.push(text(ItemKey::AlbumArtist, "Various"));
    tag.push(text(ItemKey::Year, "1999"));
    tag.push(text(ItemKey::TrackNumber, "7"));
    tag.push(text(ItemKey::DiscNumber, "2"));
    let data = read_tag(&tag);
    assert_eq!(data.artists, vec!["A", "B"]);
    assert_eq!(data.genres, vec!["Jazz"]);
    assert_eq!(data.composers, vec!["C"]);
    assert_eq!(data.comments, vec!["fine"]);
    assert_eq!(data.title.as_deref(), Some("Song"));
    assert_eq!(data.album.as_deref(), Some("Album"));
    assert_eq!(data.album_artist.as_deref(), Some("Various"));
    assert_eq!(data.year, Some(1999));
    assert_eq!(data.track, Some(7));
    assert_eq!(data.disc, Some(2));
    assert_eq!(data.cover, None);
}

#[test]
fn empty_tag_reads_as_nothing() {
    let data = read_tag(&Tag::new(TagType::Id3v2));
    assert!(data.artists.is_empty());
    assert!(data.genres.is_empty());
    assert!(data.composers.is_empty());
    assert!(data.comments.is_empty());
    assert_eq!(data.title, None);
    assert_eq!(data.album, None);
    assert_eq!(data.album_artist, None);
    assert_eq!(data.year, None);
    assert_eq!(data.track, None);
    assert_eq!(data.disc, None);
    assert_eq!(data.cover, None);
}

#[test]
fn first_picture_is_the_cover() {
    let mut tag = Tag::new(TagType::Id3v2);
    tag.push_picture(Picture::new_unchecked(
        PictureType::CoverFront,
        Some(MimeType::Jpeg),
        None,
        vec![1, 2, 3],
    ));
    tag.push_picture(Picture::new_unchecked(
        PictureType::CoverBack,
        Some(MimeType::Png),
        None,
        vec![4, 5],
    ));
    assert_eq!(read_tag(&tag).cover, Some(vec![1, 2, 3]));
}

#[test]
fn properties_are_read_through_lofty() {
    let properties = FileProperties::new(
        Duration::new(185, 250_000_000),
        Some(330),
        Some(320),
        Some(48_000),
        Some(16),
        Some(2),
        None,
    );
    let file = TaggedFile::new(FileType::Mpeg, properties, Vec::new());
    let info = read_file(&file);
    assert_eq!(info.duration_secs, 185);
    assert_eq!(info.duration_nanos, 250_000_000);
    assert_eq!(info.sample_rate, Some(48_000));
    assert_eq!(info.bit_rate, Some(320));
    assert!(info.tag.is_none());
}

#[test]
fn primary_tag_is_preferred() {
    let mut id3v1 = Tag::new(TagType::Id3v1);
    id3v1.push(text(ItemKey::TrackTitle, "old"));
    let mut id3v2 = Tag::new(TagType::Id3v2);
    id3v2.push(text(ItemKey::TrackTitle, "new"));
    let file = TaggedFile::new(FileType::Mpeg, FileProperties::default(), vec![id3v1, id3v2]);
    assert_eq!(read_file(&file).tag.unwrap().title.as_deref(), Some("new"));
}

#[test]
fn first_tag_is_read_where_the_primary_one_is_missing() {
    let mut ape = Tag::new(TagType::Ape);
    ape.push(text(ItemKey::TrackTitle, "ape"));
    let mut id3v1 = Tag::new(TagType::Id3v1);
    id3v1.push(text(ItemKey::TrackTitle, "one"));
    let file = TaggedFile::new(FileType::Mpeg, FileProperties::default(), vec![ape, id3v1]);
    assert_eq!(read_file(&file).tag.unwrap().title.as_deref(), Some("ape"));
}

#[test]
fn file_of_a_custom_type_has_its_first_tag_read() {
    let mut ape = Tag::new(TagType::Ape);
    ape.push(text(ItemKey::TrackTitle, "first"));
    let mut id3v2 = Tag::new(TagType::Id3v2);
    id3v2.push(text(ItemKey::TrackTitle, "second"));
    let file = TaggedFile::new(
        FileType::Custom("known to nobody"),
        FileProperties::default(),
        vec![ape, id3v2],
    );
    assert_eq!(read_file(&file).tag.unwrap().title.as_deref(), Some("first"));
    let untagged =
        TaggedFile::new(FileType::Custom("known to nobody"), FileProperties::default(), Vec::new());
    assert!(read_file(&untagged).tag.is_none());
}

#[test]
fn probe_error_hands_on_the_message_of_the_parser() {
    let bytes = b"this is no audio file".to_vec();
    let cause = probe("flac", &bytes).err().unwrap().to_string();
    match extract(&stat(bytes.len()), "flac", &bytes) {
        Err(ExtractionError::Probe(message)) => assert_eq!(message, cause),
        other => panic!("{other:?}"),
    }
}

#[test]
fn untagged_flac_has_the_fixed_fields_only() {
    let bytes = flac(&[]);
    let extraction = extract(&stat(bytes.len()), "flac", &bytes).unwrap();
    let record = extraction.record;
    assert_eq!(record.get(Field::Duration), Some(&"1000".to_string()));
    assert_eq!(record.get(Field::DateModified), Some(&"1600000000005".to_string()));
    assert_eq!(record.get(Field::FileSize), Some(&bytes.len().to_string()));
    assert_eq!(record.get(Field::SampleRate), Some(&"44100".to_string()));
    assert!(record.get(Field::Title).is_none());
    assert!(record.get(Field::Artist).is_none());
    assert!(extraction.artwork.is_none());
}

#[test]
fn tagged_flac_has_its_tag_fields() {
    let bytes = flac(&[(
        4,
        vorbis_comments(&["TITLE=Song", "ARTIST=A", "ARTIST=B", "DATE=2001", "TRACKNUMBER=3"]),
    )]);
    let record = extract(&stat(bytes.len()), "flac", &bytes).unwrap().record;
    assert_eq!(record.get(Field::Title), Some(&"Song".to_string()));
    assert_eq!(record.get(Field::Artist), Some(&r#"["A","B"]"#.to_string()));
    assert_eq!(record.get(Field::Track), Some(&"3".to_string()));
    assert_eq!(record.get(Field::Year), Some(&"2001".to_string()));
    assert_eq!(record.get(Field::Album), Some(&String::new()));
    assert_eq!(record.get(Field::Disc), Some(&String::new()));
    assert_eq!(record.get(Field::Genre), Some(&"[]".to_string()));
    assert_eq!(record.get(Field::Duration), Some(&"1000".to_string()));
}

#[test]
fn same_bytes_give_the_same_record() {
    let cover = [0xFFu8, 0xD8, 0xFF, 0xE0, 0, 16, b'J', b'F', b'I', b'F'];
    let bytes = flac(&[(4, vorbis_comments(&["TITLE=T"])), (6, flac_picture(&cover))]);
    let first = extract(&stat(bytes.len()), "flac", &bytes).unwrap();
    let second = extract(&stat(bytes.len()), "flac", &bytes).unwrap();
    let mut a = first.record.pairs();
    let mut b = second.record.pairs();
    a.sort();
    b.sort();
    assert_eq!(a, b);
    assert_eq!(first.artwork.unwrap().name(), second.artwork.unwrap().name());
}

#[test]
fn truncated_flac_is_a_probe_error() {
    let bytes = flac(&[(4, vorbis_comments(&["TITLE=Song"]))]);
    let outcome = extract(&stat(20), "flac", &bytes[..20]);
    assert!(matches!(outcome, Err(ExtractionError::Probe(_))));
}

#[test]
fn bytes_that_are_no_audio_are_a_probe_error() {
    let bytes = b"this is no audio file at all, whatever its name says".to_vec();
    for extension in ["flac", "mp3", "wav", "ogg", "m4a", "aac"] {
        let outcome = extract(&stat(bytes.len()), extension, &bytes);
        assert!(matches!(outcome, Err(ExtractionError::Probe(_))), "{extension}");
    }
}

#[test]
fn file_with_unknown_extension_is_a_probe_error() {
    let bytes = flac(&[]);
    let outcome = extract(&stat(bytes.len()), "txt", &bytes);
    assert!(matches!(outcome, Err(ExtractionError::Probe(_))));
}

#[test]
fn extension_in_capitals_is_read_all_the_same() {
    let bytes = flac(&[(4, vorbis_comments(&["TITLE=Song"]))]);
    let record = extract(&stat(bytes.len()), "FLAC", &bytes).unwrap().record;
    assert_eq!(record.get(Field::Title), Some(&"Song".to_string()));
    assert!(record.contains(Field::Duration));
    assert!(record.contains(Field::FileSize));
    assert!(record.contains(Field::DateModified));
}

#[test]
fn empty_file_is_a_probe_error() {
    let outcome = extract(&stat(0), "flac", &[]);
    assert!(matches!(outcome, Err(ExtractionError::Probe(_))));
}

#[test]
fn flac_read_as_mp3_has_no_flac_fields() {
    let bytes = flac(&[(4, vorbis_comments(&["TITLE=Song"]))]);
    match extract(&stat(bytes.len()), "mp3", &bytes) {
        Ok(extraction) => assert_ne!(extraction.record.get(Field::Title), Some(&"Song".to_string())),
        Err(error) => assert!(matches!(error, ExtractionError::Probe(_))),
    }
}

#[test]
fn tagged_mp3_with_slashed_artist() {
    let mut tag = Tag::new(TagType::Id3v2);
    tag.push(text(ItemKey::TrackTitle, "Song"));
    tag.push(text(ItemKey::TrackArtist, "X/Y"));
    let bytes = mp3_with(&tag);
    let extraction = extract(&stat(bytes.len()), "mp3", &bytes).unwrap();
    let record = &extraction.record;
    assert_eq!(record.get(Field::Title), Some(&"Song".to_string()));
    let artists: Vec<String> = serde_json::from_str(record.get(Field::Artist).unwrap()).unwrap();
    assert_eq!(artists, vec!["X", "Y"]);
    assert!(record.contains(Field::Duration));
    assert!(record.contains(Field::FileSize));
    assert!(record.contains(Field::DateModified));
    assert_eq!(record.get(Field::SampleRate), Some(&"44100".to_string()));
    assert_eq!(record.get(Field::BitRate), Some(&"128000".to_string()));
    assert!(extraction.artwork.is_none());
}

#[test]
fn end_to_end_scenario() {
    let mut tag = Tag::new(TagType::Id3v2);
    tag.push(text(ItemKey::TrackTitle, "Song"));
    tag.push(text(ItemKey::TrackArtist, "X/Y"));
    let a_mp3 = mp3_with(&tag);
    let cover = vec![0xFF, 0xD8, 0xFF, 0xE0, 0x00, 0x10, 0x4A, 0x46];
    let b_flac = flac(&[(6, flac_picture(&cover))]);

    let mut files: HashMap<&str, Vec<u8>> = HashMap::new();
    files.insert("/music/a.mp3", a_mp3);
    files.insert("/music/sub/b.flac", b_flac);
    let entry = |path: &str, is_dir: bool, extension: Option<&str>| DirEntry {
        path: path.to_string(),
        is_dir,
        extension: extension.map(String::from),
    };

    let mut step = scan_directory("/music".to_string(), PathKind::Directory);
    let found = loop {
        match step {
            ScanStep::ReadDirectory(scan) => {
                let listing = match scan.path().as_str() {
                    "/music" => vec![
                        entry("/music/a.mp3", false, Some("mp3")),
                        entry("/music/sub", true, None),
                    ],
                    "/music/sub" => vec![entry("/music/sub/b.flac", false, Some("flac"))],
                    other => panic!("{other}"),
                };
                step = scan.listed(Ok(listing));
            }
            ScanStep::Finished(outcome) => break outcome.unwrap(),
        }
    };
    let mut sorted = found.clone();
    sorted.sort();
    assert_eq!(sorted, vec!["/music/a.mp3", "/music/sub/b.flac"]);

    let mut cache: HashMap<String, Vec<u8>> = HashMap::new();
    let mut records = HashMap::new();
    for path in &found {
        let bytes = &files[path.as_str()];
        let extension = path.rsplit('.').next().unwrap();
        let extraction = extract(&stat(bytes.len()), extension, bytes).unwrap();
        let record = match begin_store(extraction) {
            StoreStep::Finished(record) => record,
            StoreStep::CreateDirectory(waiting) => {
                let lookup = waiting.directory_created(Ok(())).unwrap();
                let present = cache.contains_key(lookup.name());
                match lookup.looked_up(present) {
                    LookupStep::Finished(record) => record,
                    LookupStep::Write(write) => {
                        cache.insert(write.name().clone(), write.data().clone());
                        write.written(true)
                    }
                }
            }
        };
        records.insert(path.clone(), record);
    }

    let a = &records["/music/a.mp3"];
    assert_eq!(a.get(Field::Title), Some(&"Song".to_string()));
    assert_eq!(a.get(Field::Artist), Some(&r#"["X","Y"]"#.to_string()));
    assert!(!a.contains(Field::ArtworkUri));

    let b = &records["/music/sub/b.flac"];
    assert_eq!(b.get(Field::Title), Some(&String::new()));
    assert_eq!(b.get(Field::Duration), Some(&"1000".to_string()));
    assert_eq!(b.get(Field::ArtworkUri), Some(&sha256_hex(&cover)));
    assert_eq!(cache.get(&sha256_hex(&cover)), Some(&cover));
    assert_eq!(cache.len(), 1);
}
