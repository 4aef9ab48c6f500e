//! What is known of the remote groups and streams, so that they need not be looked up again.

use vstd::hash_map::StringHashMap;
use vstd::prelude::*;
use vstd::string::*;

verus! {

/// The groups and streams that are known to exist, and the sequence tokens of the streams.
pub struct Caches {
    groups: StringHashMap<bool>,
    streams: StringHashMap<bool>,
    tokens: StringHashMap<String>,
}

/// The model of [`Caches`]. Groups are entered by their names, streams by their keys.
#[verifier::ext_equal]
pub struct CachesView {
    pub groups: Map<Seq<char>, bool>,
    pub streams: Map<Seq<char>, bool>,
    pub tokens: Map<Seq<char>, Seq<char>>,
}

/// The key of a stream: the name of its group, two colons and its own name.
pub open spec fn key_of(group: Seq<char>, stream: Seq<char>) -> Seq<char> {
    group + "::"@ + stream
}

/// Whether a key splits into its parts at its first pair of colons.
pub open spec fn splits_at_first_colons(group: Seq<char>, stream: Seq<char>) -> bool {
    let key = key_of(group, stream);
    forall|i: int| 0 <= i < group.len() ==> !(#[trigger] key[i] == ':' && key[i + 1] == ':')
}

/// The keys of a group split at their first pair of colons where its name holds no colon.
pub proof fn law_colon_free_groups_split(group: Seq<char>, stream: Seq<char>)
    requires
        !group.contains(':'),
    ensures
        splits_at_first_colons(group, stream),
{
    let key = key_of(group, stream);
    assert forall|i: int| 0 <= i < group.len() implies !(#[trigger] key[i] == ':' && key[i + 1]
        == ':') by {
        assert(key[i] == group[i]);
    }
}

/// Streams whose keys split at their first pair of colons have keys of their own.
pub proof fn law_keys_distinct(
    left_group: Seq<char>,
    left_stream: Seq<char>,
    right_group: Seq<char>,
    right_stream: Seq<char>,
)
    requires
        splits_at_first_colons(left_group, left_stream),
        splits_at_first_colons(right_group, right_stream),
        key_of(left_group, left_stream) == key_of(right_group, right_stream),
    ensures
        left_group == right_group,
        left_stream == right_stream,
{
    let key = key_of(left_group, left_stream);
    reveal_strlit("::");
    assert("::"@ =~= seq![':', ':']);
    let (left, right) = (left_group.len() as int, right_group.len() as int);
    assert(key[left] == ':' && key[left + 1] == ':');
    assert(key_of(right_group, right_stream)[right] == ':');
    assert(key_of(right_group, right_stream)[right + 1] == ':');
    assert(left == right);
    assert(left_group =~= key.take(left));
    assert(right_group =~= key.take(left));
    assert(left_stream =~= key.skip(left + 2));
    assert(right_stream =~= key.skip(left + 2));
}

impl CachesView {
    /// Nothing is known.
    pub open spec fn empty() -> CachesView {
        CachesView { groups: Map::empty(), streams: Map::empty(), tokens: Map::empty() }
    }

    /// Whether the group is known to exist.
    pub open spec fn knows_group(self, group: Seq<char>) -> bool {
        self.groups.contains_key(group) && self.groups[group]
    }

    /// Whether the stream with this key is known to exist.
    pub open spec fn knows_stream(self, key: Seq<char>) -> bool {
        self.streams.contains_key(key) && self.streams[key]
    }

    /// The sequence token that is stored for the stream with this key.
    pub open spec fn token(self, key: Seq<char>) -> Option<Seq<char>> {
        if self.tokens.contains_key(key) {
            Some(self.tokens[key])
        } else {
            None
        }
    }

    /// The group is entered as existing.
    pub open spec fn with_group(self, group: Seq<char>) -> CachesView {
        CachesView { groups: self.groups.insert(group, true), ..self }
    }

    /// The stream with this key is entered as existing.
    pub open spec fn with_stream(self, key: Seq<char>) -> CachesView {
        CachesView { streams: self.streams.insert(key, true), ..self }
    }

    /// The new sequence token of a stream is stored, if there is one.
    pub open spec fn with_token(self, key: Seq<char>, new_token: Option<Seq<char>>) -> CachesView {
        match new_token {
            Some(token) => CachesView { tokens: self.tokens.insert(key, token), ..self },
            None => self,
        }
    }
}

impl View for Caches {
    type V = CachesView;

    closed spec fn view(&self) -> CachesView {
        CachesView {
            groups: self.groups@,
            streams: self.streams@,
            tokens: self.tokens@.map_values(|token: String| token@),
        }
    }
}

/// Builds the key of a stream.
pub fn stream_key(group: &str, stream: &str) -> (key: String)
    ensures
        key@ == key_of(group@, stream@),
{
    let mut key = group.to_owned();
    key.append("::");
    key.append(stream);
    key
}

impl Caches {
    /// Caches in which nothing is known.
    pub fn new() -> (caches: Caches)
        ensures
            caches@ == CachesView::empty(),
    {
        let caches = Caches {
            groups: StringHashMap::new(),
            streams: StringHashMap::new(),
            tokens: StringHashMap::new(),
        };
        assert(caches@ =~= CachesView::empty());
        caches
    }

    /// Whether the group is known to exist.
    pub fn knows_group(&self, group: &str) -> (known: bool)
        ensures
            known == self@.knows_group(group@),
    {
        match self.groups.get(group) {
            Some(exists_already) => *exists_already,
            None => false,
        }
    }

    /// Whether the stream with this key is known to exist.
    pub fn knows_stream(&self, key: &str) -> (known: bool)
        ensures
            known == self@.knows_stream(key@),
    {
        match self.streams.get(key) {
            Some(exists_already) => *exists_already,
            None => false,
        }
    }

    /// Enters a group as existing.
    pub fn add_group(&mut self, group: String)
        ensures
            final(self)@ == old(self)@.with_group(group@),
    {
        self.groups.insert(group, true);
    }

    /// Enters the stream with this key as existing.
    pub fn add_stream(&mut self, key: String)
        ensures
            final(self)@ == old(self)@.with_stream(key@),
    {
        self.streams.insert(key, true);
    }

    /// The sequence token that is stored for the stream with this key.
    pub fn sequence_token(&self, key: &str) -> (token: Option<String>)
        ensures
            token.deep_view() == self@.token(key@),
    {
        match self.tokens.get(key) {
            Some(token) => Some(token.clone()),
            None => None,
        }
    }

    /// Stores the new sequence token of a stream, if there is one. Without one, the token that is
    /// stored stays.
    pub fn update_sequence_token(&mut self, key: String, new_tok: Option<String>)
        ensures
            final(self)@ == old(self)@.with_token(key@, new_tok.deep_view()),
    {
        match new_tok {
            Some(token) => {
                self.tokens.insert(key, token);
                assert(self@ =~= old(self)@.with_token(key@, Some(token@)));
            },
            None => {},
        }
    }
}

/// A key is the name of the group, two colons and the name of the stream, both whole.
pub proof fn law_key_parts(group: Seq<char>, stream: Seq<char>)
    ensures
        ({
            let key = key_of(group, stream);
            &&& key.len() == group.len() + 2 + stream.len()
            &&& key.subrange(0, group.len() as int) == group
            &&& key[group.len() as int] == ':'
            &&& key[group.len() as int + 1] == ':'
            &&& key.skip(group.len() as int + 2) == stream
        }),
{
    reveal_strlit("::");
    let key = key_of(group, stream);
    assert(key.subrange(0, group.len() as int) =~= group);
    assert(key.skip(group.len() as int + 2) =~= stream);
}

/// At first nothing is known.
pub proof fn law_nothing_known_at_first(name: Seq<char>)
    ensures
        !CachesView::empty().knows_group(name),
        !CachesView::empty().knows_stream(name),
        CachesView::empty().token(name) is None,
{
}

/// What is entered is read back, and only that: an entry leaves all others as they are.
pub proof fn law_entries_read_back(
    caches: CachesView,
    entered: Seq<char>,
    token: Seq<char>,
    name: Seq<char>,
)
    ensures
        ({
            let with_group = caches.with_group(entered);
            let with_stream = caches.with_stream(entered);
            let with_token = caches.with_token(entered, Some(token));
            &&& with_group.knows_group(name) <==> name == entered || caches.knows_group(name)
            &&& with_group.knows_stream(name) <==> caches.knows_stream(name)
            &&& with_group.token(name) == caches.token(name)
            &&& with_stream.knows_stream(name) <==> name == entered || caches.knows_stream(name)
            &&& with_stream.knows_group(name) <==> caches.knows_group(name)
            &&& with_stream.token(name) == caches.token(name)
            &&& with_token.token(name) == (if name == entered {
                Some(token)
            } else {
                caches.token(name)
            })
            &&& with_token.knows_group(name) <==> caches.knows_group(name)
            &&& with_token.knows_stream(name) <==> caches.knows_stream(name)
            &&& caches.with_token(entered, None) == caches
        }),
{
}

} // verus!
