use aria_player::record::{AudioFileRecord, Field};

#[test]
fn new_record_is_empty() {
    let record = AudioFileRecord::new();
    assert_eq!(record.len(), 0);
    assert!(record.get(Field::Title).is_none());
    assert!(!record.contains(Field::Title));
}

#[test]
fn insert_then_get() {
    let mut record = AudioFileRecord::new();
    record.insert(Field::Title, "Song".to_string());
    record.insert(Field::Album, "Album".to_string());
    assert_eq!(record.len(), 2);
    assert_eq!(record.get(Field::Title), Some(&"Song".to_string()));
    assert_eq!(record.get(Field::Album), Some(&"Album".to_string()));
    assert!(record.get(Field::Artist).is_none());
}

#[test]
fn insert_replaces_the_earlier_text() {
    let mut record = AudioFileRecord::new();
    record.insert(Field::Title, "One".to_string());
    record.insert(Field::Year, "1999".to_string());
    record.insert(Field::Title, "Two".to_string());
    assert_eq!(record.len(), 2);
    assert_eq!(record.get(Field::Title), Some(&"Two".to_string()));
    assert_eq!(record.get(Field::Year), Some(&"1999".to_string()));
}

#[test]
fn field_names_are_those_of_the_front_end() {
    assert_eq!(Field::Title.key(), "title");
    assert_eq!(Field::Artist.key(), "artist");
    assert_eq!(Field::Album.key(), "album");
    assert_eq!(Field::AlbumArtist.key(), "albumArtist");
    assert_eq!(Field::Composer.key(), "composer");
    assert_eq!(Field::Genre.key(), "genre");
    assert_eq!(Field::Comments.key(), "comments");
    assert_eq!(Field::Year.key(), "year");
    assert_eq!(Field::Track.key(), "track");
    assert_eq!(Field::Disc.key(), "disc");
    assert_eq!(Field::Duration.key(), "duration");
    assert_eq!(Field::DateModified.key(), "dateModified");
    assert_eq!(Field::FileSize.key(), "fileSize");
    assert_eq!(Field::SampleRate.key(), "sampleRate");
    assert_eq!(Field::BitRate.key(), "bitRate");
    assert_eq!(Field::ArtworkUri.key(), "artworkUri");
}

#[test]
fn pairs_give_each_field_once_by_name() {
    let mut record = AudioFileRecord::new();
    record.insert(Field::Title, "One".to_string());
    record.insert(Field::FileSize, "12".to_string());
    record.insert(Field::Title, "Two".to_string());
    let mut pairs = record.pairs();
    pairs.sort();
    assert_eq!(
        pairs,
        vec![
            ("fileSize".to_string(), "12".to_string()),
            ("title".to_string(), "Two".to_string()),
        ]
    );
}
