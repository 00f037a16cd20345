//! The normalized record of one audio file: a flat mapping from field to text.

use vstd::prelude::*;
use vstd::string::StringExecFns;

verus! {

/// The fields a record can hold.
#[derive(Clone, Copy, Debug, PartialEq, Eq, Structural)]
pub enum Field {
    Title,
    Artist,
    Album,
    AlbumArtist,
    Composer,
    Genre,
    Comments,
    Year,
    Track,
    Disc,
    Duration,
    DateModified,
    FileSize,
    SampleRate,
    BitRate,
    ArtworkUri,
}

/// The name under which a field is handed to the front end.
pub open spec fn field_key(field: Field) -> Seq<char> {
    match field {
        Field::Title => "title"@,
        Field::Artist => "artist"@,
        Field::Album => "album"@,
        Field::AlbumArtist => "albumArtist"@,
        Field::Composer => "composer"@,
        Field::Genre => "genre"@,
        Field::Comments => "comments"@,
        Field::Year => "year"@,
        Field::Track => "track"@,
        Field::Disc => "disc"@,
        Field::Duration => "duration"@,
        Field::DateModified => "dateModified"@,
        Field::FileSize => "fileSize"@,
        Field::SampleRate => "sampleRate"@,
        Field::BitRate => "bitRate"@,
        Field::ArtworkUri => "artworkUri"@,
    }
}

impl Field {
    /// The name under which this field is handed to the front end.
    pub fn key(self) -> (name: &'static str)
        ensures
            name@ == field_key(self),
    {
        match self {
            Field::Title => "title",
            Field::Artist => "artist",
            Field::Album => "album",
            Field::AlbumArtist => "albumArtist",
            Field::Composer => "composer",
            Field::Genre => "genre",
            Field::Comments => "comments",
            Field::Year => "year",
            Field::Track => "track",
            Field::Disc => "disc",
            Field::Duration => "duration",
            Field::DateModified => "dateModified",
            Field::FileSize => "fileSize",
            Field::SampleRate => "sampleRate",
            Field::BitRate => "bitRate",
            Field::ArtworkUri => "artworkUri",
        }
    }
}

/// No field has two entries.
pub open spec fn distinct_fields(entries: Seq<(Field, String)>) -> bool {
    forall|i: int, j: int|
        0 <= i < j < entries.len() ==> (#[trigger] entries[i]).0 != (#[trigger] entries[j]).0
}

/// The mapping that a list of entries without repeated fields stands for.
pub open spec fn entries_map(entries: Seq<(Field, String)>) -> Map<Field, Seq<char>> {
    Map::new(
        |field: Field| exists|i: int| 0 <= i < entries.len() && (#[trigger] entries[i]).0 == field,
        |field: Field| entries[choose|i: int| 0 <= i < entries.len() && (#[trigger] entries[i]).0 == field].1@,
    )
}

/// Whether `pair` is the name of `field` together with `text`.
pub open spec fn named(pair: (String, String), field: Field, text: Seq<char>) -> bool {
    pair.0@ == field_key(field) && pair.1@ == text
}

/// Whether `pair` is the name and the text of a field that `record` holds.
pub open spec fn names_field_of(pair: (String, String), record: Map<Field, Seq<char>>) -> bool {
    exists|field: Field| record.contains_key(field) && #[trigger] named(pair, field, record[field])
}

/// Whether `list` has a pair that is the name of `field` together with `text`.
pub open spec fn holds_named(list: Seq<(String, String)>, field: Field, text: Seq<char>) -> bool {
    exists|i: int| 0 <= i < list.len() && #[trigger] named(list[i], field, text)
}

/// The normalized record of one audio file.
#[derive(Debug)]
pub struct AudioFileRecord {
    entries: Vec<(Field, String)>,
}

impl View for AudioFileRecord {
    type V = Map<Field, Seq<char>>;

    closed spec fn view(&self) -> Map<Field, Seq<char>> {
        entries_map(self.entries@)
    }
}

impl AudioFileRecord {
    #[verifier::type_invariant]
    spec fn well_formed(self) -> bool {
        distinct_fields(self.entries@)
    }

    /// A record without fields.
    pub fn new() -> (record: AudioFileRecord)
        ensures
            record@ == Map::<Field, Seq<char>>::empty(),
    {
        let record = AudioFileRecord { entries: Vec::new() };
        assert(record@ =~= Map::<Field, Seq<char>>::empty());
        record
    }

    /// The number of fields that the record holds.
    pub fn len(&self) -> (n: usize)
        ensures
            n == self@.dom().len(),
            self@.dom().finite(),
    {
        proof {
            use_type_invariant(self);
            lemma_entries_domain(self.entries@);
        }
        self.entries.len()
    }

    /// The text stored for `field`, if any.
    pub fn get(&self, field: Field) -> (value: Option<&String>)
        ensures
            match value {
                Some(text) => self@.contains_key(field) && self@[field] == text@,
                None => !self@.contains_key(field),
            },
    {
        proof {
            use_type_invariant(self);
        }
        let mut i: usize = 0;
        while i < self.entries.len()
            invariant
                i <= self.entries.len(),
                distinct_fields(self.entries@),
                forall|j: int| 0 <= j < i ==> (#[trigger] self.entries[j]).0 != field,
            decreases self.entries.len() - i,
        {
            if self.entries[i].0 == field {
                proof {
                    lemma_entry_value(self.entries@, i as int);
                }
                return Some(&self.entries[i].1);
            }
            i += 1;
        }
        None
    }

    /// Whether the record holds `field`.
    pub fn contains(&self, field: Field) -> (present: bool)
        ensures
            present == self@.contains_key(field),
    {
        self.get(field).is_some()
    }

    /// The record as pairs of a field's name and its text, one pair for each
    /// field that the record holds.
    pub fn pairs(&self) -> (list: Vec<(String, String)>)
        ensures
            list@.len() == self@.dom().len(),
            forall|i: int| 0 <= i < list@.len() ==> #[trigger] names_field_of(list@[i], self@),
            forall|field: Field| #[trigger]
                self@.contains_key(field) ==> holds_named(list@, field, self@[field]),
    {
        proof {
            use_type_invariant(self);
            lemma_entries_domain(self.entries@);
        }
        let mut list: Vec<(String, String)> = Vec::new();
        let mut i: usize = 0;
        while i < self.entries.len()
            invariant
                i <= self.entries.len(),
                distinct_fields(self.entries@),
                list@.len() == i,
                forall|j: int|
                    0 <= j < i ==> named(
                        #[trigger] list@[j],
                        self.entries[j].0,
                        self.entries[j].1@,
                    ),
            decreases self.entries.len() - i,
        {
            let name = String::from_str(self.entries[i].0.key());
            let text = self.entries[i].1.clone();
            list.push((name, text));
            i += 1;
        }
        proof {
            assert forall|j: int| 0 <= j < list@.len() implies #[trigger] names_field_of(
                list@[j],
                self@,
            ) by {
                lemma_entry_value(self.entries@, j);
                let field = self.entries[j].0;
                assert(self@.contains_key(field) && named(list@[j], field, self@[field]));
            }
            assert forall|field: Field| #[trigger] self@.contains_key(field) implies holds_named(
                list@,
                field,
                self@[field],
            ) by {
                let j = choose|j: int|
                    0 <= j < self.entries@.len() && (#[trigger] self.entries@[j]).0 == field;
                lemma_entry_value(self.entries@, j);
                assert(named(list@[j], field, self@[field]));
            }
        }
        list
    }

    /// Stores `value` for `field`, in place of what the record held for it.
    pub fn insert(&mut self, field: Field, value: String)
        ensures
            final(self)@ == old(self)@.insert(field, value@),
    {
        proof {
            use_type_invariant(&*self);
        }
        let mut entries: Vec<(Field, String)> = Vec::new();
        std::mem::swap(&mut self.entries, &mut entries);
        let ghost before = entries@;
        let mut i: usize = 0;
        while i < entries.len() && entries[i].0 != field
            invariant
                i <= entries.len(),
                entries@ == before,
                forall|j: int| 0 <= j < i ==> (#[trigger] entries[j]).0 != field,
            decreases entries.len() - i,
        {
            i += 1;
        }
        if i < entries.len() {
            entries.set(i, (field, value));
            proof {
                lemma_replace(before, i as int, value);
            }
        } else {
            entries.push((field, value));
            proof {
                lemma_append(before, field, value);
            }
        }
        self.entries = entries;
    }
}

/// Where entry `i` is the one for its field, the mapping gives its text.
pub proof fn lemma_entry_value(entries: Seq<(Field, String)>, i: int)
    requires
        distinct_fields(entries),
        0 <= i < entries.len(),
    ensures
        entries_map(entries).contains_key(entries[i].0),
        entries_map(entries)[entries[i].0] == entries[i].1@,
{
    let field = entries[i].0;
    let j = choose|j: int| 0 <= j < entries.len() && (#[trigger] entries[j]).0 == field;
    assert(j == i) by {
        if j < i {
            assert(entries[j].0 != entries[i].0);
        } else if i < j {
            assert(entries[i].0 != entries[j].0);
        }
    }
}

/// Replacing the text of entry `i` changes the mapping at its field only.
proof fn lemma_replace(entries: Seq<(Field, String)>, i: int, value: String)
    requires
        distinct_fields(entries),
        0 <= i < entries.len(),
    ensures
        distinct_fields(entries.update(i, (entries[i].0, value))),
        entries_map(entries.update(i, (entries[i].0, value))) == entries_map(entries).insert(
            entries[i].0,
            value@,
        ),
{
    let field = entries[i].0;
    let after = entries.update(i, (field, value));
    assert(distinct_fields(after)) by {
        assert forall|a: int, b: int| 0 <= a < b < after.len() implies (#[trigger] after[a]).0 != (
        #[trigger] after[b]).0 by {
            assert(entries[a].0 != entries[b].0);
        }
    }
    let left = entries_map(after);
    let right = entries_map(entries).insert(field, value@);
    assert forall|f: Field| left.contains_key(f) <==> right.contains_key(f) by {
        if left.contains_key(f) {
            let k = choose|k: int| 0 <= k < after.len() && (#[trigger] after[k]).0 == f;
            assert(entries[k].0 == f);
        }
        if right.contains_key(f) && f != field {
            let k = choose|k: int| 0 <= k < entries.len() && (#[trigger] entries[k]).0 == f;
            assert(after[k].0 == f);
        }
        if f == field {
            assert(after[i].0 == f);
        }
    }
    assert forall|f: Field| left.contains_key(f) implies left[f] == right[f] by {
        let k = choose|k: int| 0 <= k < after.len() && (#[trigger] after[k]).0 == f;
        lemma_entry_value(after, k);
        if f != field {
            assert(k != i);
            lemma_entry_value(entries, k);
        } else {
            lemma_entry_value(after, i);
        }
    }
    assert(left =~= right);
}

/// Adding an entry for a field that has none extends the mapping by it.
proof fn lemma_append(entries: Seq<(Field, String)>, field: Field, value: String)
    requires
        distinct_fields(entries),
        forall|j: int| 0 <= j < entries.len() ==> (#[trigger] entries[j]).0 != field,
    ensures
        distinct_fields(entries.push((field, value))),
        entries_map(entries.push((field, value))) == entries_map(entries).insert(field, value@),
{
    let after = entries.push((field, value));
    assert(distinct_fields(after)) by {
        assert forall|a: int, b: int| 0 <= a < b < after.len() implies (#[trigger] after[a]).0 != (
        #[trigger] after[b]).0 by {
            if b < entries.len() {
                assert(entries[a].0 != entries[b].0);
            } else {
                assert(entries[a].0 != field);
            }
        }
    }
    let left = entries_map(after);
    let right = entries_map(entries).insert(field, value@);
    assert forall|f: Field| left.contains_key(f) <==> right.contains_key(f) by {
        if left.contains_key(f) {
            let k = choose|k: int| 0 <= k < after.len() && (#[trigger] after[k]).0 == f;
            if k < entries.len() {
                assert(entries[k].0 == f);
            }
        }
        if right.contains_key(f) && f != field {
            let k = choose|k: int| 0 <= k < entries.len() && (#[trigger] entries[k]).0 == f;
            assert(after[k].0 == f);
        }
        if f == field {
            assert(after[entries.len() as int].0 == f);
        }
    }
    assert forall|f: Field| left.contains_key(f) implies left[f] == right[f] by {
        let k = choose|k: int| 0 <= k < after.len() && (#[trigger] after[k]).0 == f;
        lemma_entry_value(after, k);
        if f != field {
            assert(k < entries.len());
            lemma_entry_value(entries, k);
        } else {
            lemma_entry_value(after, entries.len() as int);
        }
    }
    assert(left =~= right);
}

/// A list without repeated fields stands for a mapping with as many keys as
/// the list has entries.
proof fn lemma_entries_domain(entries: Seq<(Field, String)>)
    requires
        distinct_fields(entries),
    ensures
        entries_map(entries).dom().finite(),
        entries_map(entries).dom().len() == entries.len(),
    decreases entries.len(),
{
    if entries.len() == 0 {
        assert(entries_map(entries).dom() =~= Set::<Field>::empty());
    } else {
        let shorter = entries.drop_last();
        let last = entries.last();
        assert(distinct_fields(shorter)) by {
            assert forall|a: int, b: int| 0 <= a < b < shorter.len() implies (
            #[trigger] shorter[a]).0 != (#[trigger] shorter[b]).0 by {
                assert(entries[a].0 != entries[b].0);
            }
        }
        lemma_entries_domain(shorter);
        assert forall|j: int| 0 <= j < shorter.len() implies (#[trigger] shorter[j]).0
            != last.0 by {
            assert(entries[j].0 != entries[entries.len() - 1].0);
        }
        lemma_append(shorter, last.0, last.1);
        assert(shorter.push((last.0, last.1)) =~= entries);
        assert(entries_map(entries).dom() =~= entries_map(shorter).dom().insert(last.0));
        assert(!entries_map(shorter).dom().contains(last.0)) by {
            if entries_map(shorter).contains_key(last.0) {
                let k = choose|k: int| 0 <= k < shorter.len() && (#[trigger] shorter[k]).0 == last.0;
                assert(false);
            }
        }
    }
}

/// Two fields never share a name, so a record is a mapping by name as well.
pub proof fn lemma_names_differ(one: Field, other: Field)
    requires
        one != other,
    ensures
        field_key(one) != field_key(other),
{
    reveal_strlit("title");
    reveal_strlit("artist");
    reveal_strlit("album");
    reveal_strlit("albumArtist");
    reveal_strlit("composer");
    reveal_strlit("genre");
    reveal_strlit("comments");
    reveal_strlit("year");
    reveal_strlit("track");
    reveal_strlit("disc");
    reveal_strlit("duration");
    reveal_strlit("dateModified");
    reveal_strlit("fileSize");
    reveal_strlit("sampleRate");
    reveal_strlit("bitRate");
    reveal_strlit("artworkUri");
    let a = field_key(one);
    let b = field_key(other);
    if a.len() == b.len() {
        assert(a[0] != b[0] || a[1] != b[1] || a[4] != b[4]);
    }
}

} // verus!
