//! The API tokens of the geolocation data providers.

use crate::error::{GeolocationBuildError, MissingTokenError, TokenWording};
use crate::parser::ConfigArguments;
use crate::provider::Provider;
use vstd::prelude::*;

verus! {

/// `toml::de::Error`, the error of reading TOML. Nothing is known of what
/// it holds.
#[verifier::external_type_specification]
#[verifier::external_body]
pub struct ExTomlError(toml::de::Error);

/// What `toml::from_str` reads from a text as a table of strings: the pairs
/// of key and value in the order of their keys, or nothing if the text is
/// not such a table.
pub uninterp spec fn toml_string_table(text: Seq<char>) -> Option<Seq<(Seq<char>, Seq<char>)>>;

/// Reads a TOML text as a table of strings.
///
/// Wraps `toml::from_str` at the type `BTreeMap<String, String>`, and hands
/// the pairs of the table out in the order of the map, which is that of
/// their keys.
#[verifier::external_body]
fn parse_string_table(text: &str) -> (table: Result<Vec<(String, String)>, toml::de::Error>)
    ensures
        match table {
            Ok(pairs) => toml_string_table(text@) == Some(pair_views(pairs@)),
            Err(_) => toml_string_table(text@) is None,
        },
{
    match toml::from_str::<std::collections::BTreeMap<String, String>>(text) {
        Ok(table) => Ok(table.into_iter().collect()),
        Err(error) => Err(error),
    }
}

/// The map that a list of key and value pairs stands for; of two pairs with
/// the same key the later one counts.
pub open spec fn map_of(pairs: Seq<(Seq<char>, Seq<char>)>) -> Map<Seq<char>, Seq<char>>
    decreases pairs.len(),
{
    if pairs.len() == 0 {
        Map::empty()
    } else {
        map_of(pairs.drop_last()).insert(pairs.last().0, pairs.last().1)
    }
}

/// No two pairs have the same key.
pub open spec fn distinct_keys(pairs: Seq<(Seq<char>, Seq<char>)>) -> bool {
    forall|i: int, j: int|
        0 <= i < j < pairs.len() ==> (#[trigger] pairs[i]).0 != (#[trigger] pairs[j]).0
}

/// The character sequences of a list of pairs of strings.
pub open spec fn pair_views(entries: Seq<(String, String)>) -> Seq<(Seq<char>, Seq<char>)> {
    entries.map_values(|entry: (String, String)| (entry.0@, entry.1@))
}

/// A key that no pair holds is not in the map.
pub proof fn lemma_map_of_absent(pairs: Seq<(Seq<char>, Seq<char>)>, key: Seq<char>)
    requires
        forall|i: int| 0 <= i < pairs.len() ==> (#[trigger] pairs[i]).0 != key,
    ensures
        !map_of(pairs).contains_key(key),
    decreases pairs.len(),
{
    if pairs.len() > 0 {
        assert forall|i: int| 0 <= i < pairs.drop_last().len() implies (
        #[trigger] pairs.drop_last()[i]).0 != key by {
            assert(pairs.drop_last()[i] == pairs[i]);
        }
        lemma_map_of_absent(pairs.drop_last(), key);
        assert(pairs.last() == pairs[pairs.len() - 1]);
    }
}

/// Where no key occurs twice, the map holds each pair's value under its key.
pub proof fn lemma_map_of_present(pairs: Seq<(Seq<char>, Seq<char>)>, at: int)
    requires
        distinct_keys(pairs),
        0 <= at < pairs.len(),
    ensures
        map_of(pairs).contains_key(pairs[at].0),
        map_of(pairs)[pairs[at].0] == pairs[at].1,
    decreases pairs.len(),
{
    if at < pairs.len() - 1 {
        assert(pairs.drop_last()[at] == pairs[at]);
        assert(distinct_keys(pairs.drop_last())) by {
            assert forall|i: int, j: int| 0 <= i < j < pairs.drop_last().len() implies (
            #[trigger] pairs.drop_last()[i]).0 != (#[trigger] pairs.drop_last()[j]).0 by {
                assert(pairs.drop_last()[i] == pairs[i]);
                assert(pairs.drop_last()[j] == pairs[j]);
            }
        }
        lemma_map_of_present(pairs.drop_last(), at);
        assert(pairs.last() == pairs[pairs.len() - 1]);
    }
}

/// Where no key occurs twice, giving the pair at `at` a new value under the
/// same key sets that key in the map.
pub proof fn lemma_map_of_update(pairs: Seq<(Seq<char>, Seq<char>)>, at: int, value: Seq<char>)
    requires
        distinct_keys(pairs),
        0 <= at < pairs.len(),
    ensures
        map_of(pairs.update(at, (pairs[at].0, value))) == map_of(pairs).insert(pairs[at].0, value),
        distinct_keys(pairs.update(at, (pairs[at].0, value))),
    decreases pairs.len(),
{
    let key = pairs[at].0;
    let updated = pairs.update(at, (key, value));
    assert(distinct_keys(updated)) by {
        assert forall|i: int, j: int| 0 <= i < j < updated.len() implies (#[trigger] updated[i]).0
            != (#[trigger] updated[j]).0 by {
            assert(updated[i].0 == pairs[i].0);
            assert(updated[j].0 == pairs[j].0);
        }
    }
    if at == pairs.len() - 1 {
        assert(updated.drop_last() == pairs.drop_last());
        assert(map_of(updated) == map_of(pairs.drop_last()).insert(key, value));
        assert(map_of(pairs) == map_of(pairs.drop_last()).insert(key, pairs[at].1));
        assert(map_of(pairs.drop_last()).insert(key, value) == map_of(pairs).insert(key, value));
    } else {
        let front = pairs.drop_last();
        assert(front[at] == pairs[at]);
        assert(distinct_keys(front)) by {
            assert forall|i: int, j: int| 0 <= i < j < front.len() implies (#[trigger] front[i]).0
                != (#[trigger] front[j]).0 by {
                assert(front[i] == pairs[i]);
                assert(front[j] == pairs[j]);
            }
        }
        lemma_map_of_update(front, at, value);
        assert(updated.drop_last() == front.update(at, (key, value)));
        assert(updated.last() == pairs.last());
        assert(pairs.last() == pairs[pairs.len() - 1]);
        assert(pairs.last().0 != key);
        assert(map_of(updated) == map_of(front).insert(key, value).insert(
            pairs.last().0,
            pairs.last().1,
        ));
        assert(map_of(front).insert(key, value).insert(pairs.last().0, pairs.last().1) == map_of(
            pairs,
        ).insert(key, value));
    }
}

/// Contains the API tokens for geolocation data providers, each under the
/// name of its provider.
#[derive(Debug)]
pub struct ApiKeyStore {
    entries: Vec<(String, String)>,
}

impl View for ApiKeyStore {
    type V = Map<Seq<char>, Seq<char>>;

    closed spec fn view(&self) -> Map<Seq<char>, Seq<char>> {
        map_of(pair_views(self.entries@))
    }
}

impl ApiKeyStore {
    /// No key is stored twice.
    #[verifier::type_invariant]
    closed spec fn no_key_twice(&self) -> bool {
        distinct_keys(pair_views(self.entries@))
    }

    /// The stored pairs, in the order in which their keys were first set.
    pub closed spec fn pairs(&self) -> Seq<(Seq<char>, Seq<char>)> {
        pair_views(self.entries@)
    }

    /// The token that the store holds for the provider, if any.
    pub open spec fn token(&self, provider: Provider) -> Option<Seq<char>> {
        if self@.contains_key(provider.name()) {
            Some(self@[provider.name()])
        } else {
            None
        }
    }

    /// A store without any token.
    pub fn new() -> (store: ApiKeyStore)
        ensures
            store@ == Map::<Seq<char>, Seq<char>>::empty(),
            store.pairs() == Seq::<(Seq<char>, Seq<char>)>::empty(),
    {
        let store = ApiKeyStore { entries: Vec::new() };
        assert(pair_views(store.entries@) == Seq::<(Seq<char>, Seq<char>)>::empty());
        store
    }

    /// A store that holds the given pairs; of two pairs with the same key
    /// the later one counts.
    pub fn from_pairs(pairs: Vec<(String, String)>) -> (store: ApiKeyStore)
        ensures
            store@ == map_of(pair_views(pairs@)),
    {
        let ghost all = pair_views(pairs@);
        let mut store = ApiKeyStore::new();
        assert(all.take(0) == Seq::<(Seq<char>, Seq<char>)>::empty());
        for pair in it: pairs
            invariant
                it.seq() == pairs@,
                all == pair_views(pairs@),
                store@ == map_of(all.take(it.index())),
        {
            proof {
                let next = all.take(it.index() + 1);
                assert(next.drop_last() == all.take(it.index()));
                assert(next.last() == (pair.0@, pair.1@));
            }
            store.insert(pair.0, pair.1);
        }
        assert(all.take(all.len() as int) == all);
        store
    }

    /// Reads a store from the TOML text of a configuration file, which
    /// holds one token as a string under the name of each provider.
    pub fn from_toml(text: &str) -> (read: Result<ApiKeyStore, GeolocationBuildError>)
        ensures
            match toml_string_table(text@) {
                Some(pairs) => read is Ok && read->Ok_0@ == map_of(pairs),
                None => read matches Err(GeolocationBuildError::ConfigurationLoadError(_)),
            },
    {
        match parse_string_table(text) {
            Ok(pairs) => Ok(ApiKeyStore::from_pairs(pairs)),
            Err(error) => Err(
                GeolocationBuildError::ConfigurationLoadError(error.to_string()),
            ),
        }
    }

    /// The place of `key` among the entries, if it is stored.
    fn find(&self, key: &String) -> (at: Option<usize>)
        ensures
            match at {
                Some(i) => i < self.entries@.len() && self.entries@[i as int].0@ == key@,
                None => forall|i: int|
                    0 <= i < self.entries@.len() ==> (#[trigger] self.entries@[i]).0@ != key@,
            },
    {
        let mut i: usize = 0;
        while i < self.entries.len()
            invariant
                i <= self.entries@.len(),
                forall|j: int| 0 <= j < i ==> (#[trigger] self.entries@[j]).0@ != key@,
            decreases self.entries.len() - i,
        {
            if self.entries[i].0 == *key {
                return Some(i);
            }
            i += 1;
        }
        None
    }

    /// Looks up the value stored under `key`.
    pub fn get(&self, key: &str) -> (value: Option<&String>)
        ensures
            match value {
                Some(v) => self@.contains_key(key@) && self@[key@] == v@,
                None => !self@.contains_key(key@),
            },
    {
        let owned = key.to_owned();
        proof {
            use_type_invariant(self);
        }
        match self.find(&owned) {
            Some(i) => {
                proof {
                    let pairs = pair_views(self.entries@);
                    assert(pairs[i as int] == (self.entries@[i as int].0@, self.entries@[i as int].1@));
                    lemma_map_of_present(pairs, i as int);
                }
                Some(&self.entries[i].1)
            },
            None => {
                proof {
                    let pairs = pair_views(self.entries@);
                    assert forall|i: int| 0 <= i < pairs.len() implies (#[trigger] pairs[i]).0
                        != key@ by {
                        assert(pairs[i].0 == self.entries@[i].0@);
                    }
                    lemma_map_of_absent(pairs, key@);
                }
                None
            },
        }
    }

    /// Stores `value` under `key`, in place of what was stored there.
    pub fn insert(&mut self, key: String, value: String)
        ensures
            final(self)@ == old(self)@.insert(key@, value@),
    {
        proof {
            use_type_invariant(&*self);
        }
        let ghost before = pair_views(self.entries@);
        let found = self.find(&key);
        let mut entries: Vec<(String, String)> = Vec::new();
        assert(pair_views(entries@) == Seq::<(Seq<char>, Seq<char>)>::empty());
        std::mem::swap(&mut self.entries, &mut entries);
        match found {
            Some(i) => {
                proof {
                    assert(before[i as int] == (entries@[i as int].0@, entries@[i as int].1@));
                    lemma_map_of_update(before, i as int, value@);
                }
                entries[i] = (key, value);
                assert(pair_views(entries@) == before.update(i as int, (key@, value@)));
            },
            None => {
                proof {
                    assert forall|i: int| 0 <= i < before.len() implies (#[trigger] before[i]).0
                        != key@ by {
                        assert(before[i].0 == entries@[i].0@);
                    }
                }
                entries.push((key, value));
                proof {
                    let after = pair_views(entries@);
                    assert(after == before.push((key@, value@)));
                    assert(after.drop_last() == before);
                    assert(distinct_keys(after)) by {
                        assert forall|i: int, j: int| 0 <= i < j < after.len() implies (
                        #[trigger] after[i]).0 != (#[trigger] after[j]).0 by {
                            assert(after[i] == before[i]);
                            if j < before.len() {
                                assert(after[j] == before[j]);
                            }
                        }
                    }
                }
            },
        }
        self.entries = entries;
    }

    /// The stored pairs of key and value, in the order in which their keys
    /// were first set.
    pub fn key_value_pairs(&self) -> (pairs: Vec<(String, String)>)
        ensures
            pair_views(pairs@) == self.pairs(),
            distinct_keys(self.pairs()),
            map_of(self.pairs()) == self@,
    {
        proof {
            use_type_invariant(self);
        }
        let mut pairs: Vec<(String, String)> = Vec::new();
        let mut i: usize = 0;
        assert(pair_views(pairs@) == pair_views(self.entries@).take(0));
        while i < self.entries.len()
            invariant
                i <= self.entries@.len(),
                pair_views(pairs@) == pair_views(self.entries@).take(i as int),
            decreases self.entries.len() - i,
        {
            let ghost copied = pairs@;
            let key = self.entries[i].0.clone();
            let value = self.entries[i].1.clone();
            pairs.push((key, value));
            proof {
                let source = pair_views(self.entries@);
                assert(pair_views(pairs@) == pair_views(copied).push((key@, value@)));
                assert(source[i as int] == (key@, value@));
                assert(source.take(i + 1) == source.take(i as int).push(source[i as int]));
            }
            i += 1;
        }
        assert(pair_views(self.entries@).take(self.entries@.len() as int) == pair_views(
            self.entries@,
        ));
        pairs
    }

    /// Gets the API token of the provider.
    ///
    /// Without a token the error names the provider and says `No token for
    /// <provider> specified. Set it with the 'config' subcommand.`
    pub fn get_provider_token(&self, provider: &Provider) -> (token: Result<
        String,
        MissingTokenError,
    >)
        ensures
            match token {
                Ok(t) => self.token(*provider) == Some(t@),
                Err(e) => self.token(*provider) is None && e == (MissingTokenError {
                    provider: *provider,
                    wording: TokenWording::NotSpecified,
                }),
            },
    {
        let name = provider.to_string();
        match self.get(name.as_str()) {
            Some(token) => Ok(token.clone()),
            None => Err(
                MissingTokenError { provider: *provider, wording: TokenWording::NotSpecified },
            ),
        }
    }

    /// Looks up the token of `provider` and reports a missing one in the
    /// given wording.
    fn provider_token(&self, provider: Provider, wording: TokenWording) -> (token: Result<
        &str,
        MissingTokenError,
    >)
        ensures
            match token {
                Ok(t) => self.token(provider) == Some(t@),
                Err(e) => self.token(provider) is None && e == (MissingTokenError {
                    provider,
                    wording,
                }),
            },
    {
        let name = provider.to_string();
        match self.get(name.as_str()) {
            Some(token) => Ok(token.as_str()),
            None => Err(MissingTokenError { provider, wording }),
        }
    }

    /// Gets the API token for ip2location.
    ///
    /// Without one the error says `No token for ip2location specified. Set
    /// it with the 'config' subcommand.`
    pub fn ip2location(&self) -> (token: Result<&str, MissingTokenError>)
        ensures
            match token {
                Ok(t) => self.token(Provider::Ip2Location) == Some(t@),
                Err(e) => {
                    &&& self.token(Provider::Ip2Location) is None
                    &&& e == (MissingTokenError {
                        provider: Provider::Ip2Location,
                        wording: TokenWording::NotSpecified,
                    })
                    &&& e.text()
                        == "No token for ip2location specified. Set it with the 'config' subcommand."@
                },
            },
    {
        self.provider_token(Provider::Ip2Location, TokenWording::NotSpecified)
    }

    /// Sets the API token for ip2location.
    pub fn set_ip2location_token(&mut self, token: String)
        ensures
            final(self)@ == old(self)@.insert(Provider::Ip2Location.name(), token@),
    {
        self.insert("ip2location".to_owned(), token);
    }

    /// Gets the API token for ipgeolocation.
    ///
    /// Without one the error says `No token for ipgeolocation specified. Set
    /// it with the 'config' subcommand.`
    pub fn ipgeolocation(&self) -> (token: Result<&str, MissingTokenError>)
        ensures
            match token {
                Ok(t) => self.token(Provider::IpGeolocation) == Some(t@),
                Err(e) => {
                    &&& self.token(Provider::IpGeolocation) is None
                    &&& e == (MissingTokenError {
                        provider: Provider::IpGeolocation,
                        wording: TokenWording::NotSpecified,
                    })
                    &&& e.text()
                        == "No token for ipgeolocation specified. Set it with the 'config' subcommand."@
                },
            },
    {
        self.provider_token(Provider::IpGeolocation, TokenWording::NotSpecified)
    }

    /// Sets the API token for ipgeolocation.
    pub fn set_ipgeolocation_token(&mut self, token: String)
        ensures
            final(self)@ == old(self)@.insert(Provider::IpGeolocation.name(), token@),
    {
        self.insert("ipgeolocation".to_owned(), token);
    }

    /// Gets the API token for ip2location.
    ///
    /// Without one the error says `Token for provider 'ip2location' is not
    /// set. Set it with the config command`.
    pub fn ip2location_token(&self) -> (token: Result<&str, MissingTokenError>)
        ensures
            match token {
                Ok(t) => self.token(Provider::Ip2Location) == Some(t@),
                Err(e) => {
                    &&& self.token(Provider::Ip2Location) is None
                    &&& e == (MissingTokenError {
                        provider: Provider::Ip2Location,
                        wording: TokenWording::NotSet,
                    })
                    &&& e.text()
                        == "Token for provider 'ip2location' is not set. Set it with the config command"@
                },
            },
    {
        self.provider_token(Provider::Ip2Location, TokenWording::NotSet)
    }

    /// Gets the API token for ipgeolocation.
    ///
    /// Without one the error says `Token for provider 'ipgeolocation' is not
    /// set. Set it with the config command`.
    pub fn ipgeolocation_token(&self) -> (token: Result<&str, MissingTokenError>)
        ensures
            match token {
                Ok(t) => self.token(Provider::IpGeolocation) == Some(t@),
                Err(e) => {
                    &&& self.token(Provider::IpGeolocation) is None
                    &&& e == (MissingTokenError {
                        provider: Provider::IpGeolocation,
                        wording: TokenWording::NotSet,
                    })
                    &&& e.text()
                        == "Token for provider 'ipgeolocation' is not set. Set it with the config command"@
                },
            },
    {
        self.provider_token(Provider::IpGeolocation, TokenWording::NotSet)
    }
}

impl Clone for ApiKeyStore {
    fn clone(&self) -> (store: ApiKeyStore)
        ensures
            store@ == self@,
            store.pairs() == self.pairs(),
    {
        let entries = self.key_value_pairs();
        ApiKeyStore { entries }
    }
}

impl Default for ApiKeyStore {
    fn default() -> (store: ApiKeyStore)
        ensures
            store@ == Map::<Seq<char>, Seq<char>>::empty(),
    {
        ApiKeyStore::new()
    }
}

/// What there is to do with the configuration.
#[derive(Clone, Debug, PartialEq, Eq)]
pub enum ConfigOperation {
    /// These pairs of key and value are to be shown.
    Show(Vec<(String, String)>),
    /// The configuration file is to be opened in an editor.
    Edit,
    /// The path of the configuration file is to be shown.
    PrintPath,
    /// Nothing was asked for.
    Nothing,
}

/// Tells what to do with the configuration: to show it comes before to
/// edit it, and that before to show its path.
pub fn operate_on_config_file(arguments: ConfigArguments, store: &ApiKeyStore) -> (operation:
    ConfigOperation)
    ensures
        if arguments.show {
            operation matches ConfigOperation::Show(pairs) && pair_views(pairs@) == store.pairs()
        } else if arguments.edit {
            operation == ConfigOperation::Edit
        } else if arguments.print_path {
            operation == ConfigOperation::PrintPath
        } else {
            operation == ConfigOperation::Nothing
        },
{
    if arguments.show {
        ConfigOperation::Show(store.key_value_pairs())
    } else if arguments.edit {
        ConfigOperation::Edit
    } else if arguments.print_path {
        ConfigOperation::PrintPath
    } else {
        ConfigOperation::Nothing
    }
}

/// What went wrong when the configuration file was loaded.
#[derive(Clone, Debug, PartialEq, Eq)]
pub enum LoadFailure {
    /// The file holds no valid configuration; holds the cause.
    BadTomlData(String),
    /// Anything else, such as a file that cannot be read; holds the cause.
    Other(String),
}

impl LoadFailure {
    /// The cause of the failure.
    pub open spec fn cause(self) -> Seq<char> {
        match self {
            LoadFailure::BadTomlData(cause) => cause@,
            LoadFailure::Other(cause) => cause@,
        }
    }
}

/// How to go on when the configuration is to be edited.
#[derive(Clone, Debug, PartialEq, Eq)]
pub enum EditorStep {
    /// The editor is to be opened on the configuration file.
    Open { editor: String },
    /// The editor is to be opened on the configuration file, so that the
    /// user can mend it; then the command fails with this error.
    OpenThenFail { editor: String, error: GeolocationBuildError },
    /// The command fails with this error.
    Fail(GeolocationBuildError),
}

/// The editor that the user prefers: the one that the environment names,
/// or else `nano`.
pub open spec fn preferred_editor(named: Option<String>) -> Seq<char> {
    match named {
        Some(editor) => editor@,
        None => "nano"@,
    }
}

/// Tells the editor that the user prefers: the one that the environment
/// names, or else `nano`.
pub fn editor_or_default(named: Option<String>) -> (editor: String)
    ensures
        editor@ == preferred_editor(named),
{
    match named {
        Some(editor) => editor,
        None => "nano".to_owned(),
    }
}

/// Tells how to open the configuration file in an editor.
///
/// `named` is the editor that the environment names, if any; `loaded` says
/// whether the configuration could be loaded. A configuration that loads is
/// opened. One that holds bad data is opened too, so that the user can mend
/// it, but the command fails. After any other failure nothing is opened.
pub fn open_configuration_file_with_editor(named: Option<String>, loaded: Result<(), LoadFailure>) -> (step:
    EditorStep)
    ensures
        match loaded {
            Ok(_) => step matches EditorStep::Open { editor } && editor@ == preferred_editor(
                named,
            ),
            Err(LoadFailure::BadTomlData(cause)) => step matches EditorStep::OpenThenFail {
                editor,
                error: GeolocationBuildError::ConfigurationLoadError(kept),
            } && editor@ == preferred_editor(named) && kept@ == cause@,
            Err(LoadFailure::Other(cause)) => step matches EditorStep::Fail(
                GeolocationBuildError::ConfigurationLoadError(kept),
            ) && kept@ == cause@,
        },
{
    let editor = editor_or_default(named);
    match loaded {
        Ok(_) => EditorStep::Open { editor },
        Err(LoadFailure::BadTomlData(cause)) => EditorStep::OpenThenFail {
            editor,
            error: GeolocationBuildError::ConfigurationLoadError(cause),
        },
        Err(LoadFailure::Other(cause)) => EditorStep::Fail(
            GeolocationBuildError::ConfigurationLoadError(cause),
        ),
    }
}

} // verus!
