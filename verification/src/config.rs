//! The configuration, and the map from components to GitHub repositories.

use crate::error::CollectorError;
use crate::text::{copy_strings, same_text, texts};
use crate::time::{Duration, NANOS_PER_SEC};
use vstd::prelude::*;
use vstd::string::*;

verus! {

/// The repositories of components: for each component one, as `owner/repo`.
#[derive(Debug)]
pub struct RepoMap {
    entries: Vec<(String, String)>,
}

/// The map that pairs make. Of pairs with the same key the last counts.
pub open spec fn map_of(pairs: Seq<(String, String)>) -> Map<Seq<char>, Seq<char>>
    decreases pairs.len(),
{
    if pairs.len() == 0 {
        Map::empty()
    } else {
        map_of(pairs.drop_last()).insert(pairs.last().0@, pairs.last().1@)
    }
}

impl View for RepoMap {
    type V = Map<Seq<char>, Seq<char>>;

    closed spec fn view(&self) -> Map<Seq<char>, Seq<char>> {
        map_of(self.entries@)
    }
}

/// Whether no key stands in two of `pairs`.
spec fn distinct_keys(pairs: Seq<(String, String)>) -> bool {
    forall|i: int, j: int|
        0 <= i < j < pairs.len() ==> (#[trigger] pairs[i]).0@ != (#[trigger] pairs[j]).0@
}

/// What pairs of distinct keys map to what.
proof fn lemma_map_of(pairs: Seq<(String, String)>)
    requires
        distinct_keys(pairs),
    ensures
        forall|i: int|
            0 <= i < pairs.len() ==> map_of(pairs).contains_key((#[trigger] pairs[i]).0@) && map_of(
                pairs,
            )[pairs[i].0@] == pairs[i].1@,
        forall|k: Seq<char>| #[trigger]
            map_of(pairs).contains_key(k) ==> exists|i: int|
                0 <= i < pairs.len() && (#[trigger] pairs[i]).0@ == k,
        map_of(pairs).dom().finite(),
        map_of(pairs).len() == pairs.len(),
    decreases pairs.len(),
{
    if pairs.len() > 0 {
        let before = pairs.drop_last();
        assert forall|i: int, j: int| 0 <= i < j < before.len() implies (#[trigger] before[i]).0@
            != (#[trigger] before[j]).0@ by {
            assert(before[i] == pairs[i] && before[j] == pairs[j]);
        }
        lemma_map_of(before);
        let n = before.len() as int;
        assert forall|i: int| 0 <= i < pairs.len() implies map_of(pairs).contains_key(
            (#[trigger] pairs[i]).0@,
        ) && map_of(pairs)[pairs[i].0@] == pairs[i].1@ by {
            if i < n {
                assert(before[i] == pairs[i]);
                assert(pairs[i].0@ != pairs[n].0@);
            }
        }
        assert forall|k: Seq<char>| #[trigger] map_of(pairs).contains_key(k) implies exists|i: int|
            0 <= i < pairs.len() && (#[trigger] pairs[i]).0@ == k by {
            if k == pairs[n].0@ {
            } else {
                assert(map_of(before).contains_key(k));
                let i = choose|i: int| 0 <= i < before.len() && (#[trigger] before[i]).0@ == k;
                assert(pairs[i].0@ == k);
            }
        }
        assert(!map_of(before).contains_key(pairs[n].0@)) by {
            if map_of(before).contains_key(pairs[n].0@) {
                let i = choose|i: int|
                    0 <= i < before.len() && (#[trigger] before[i]).0@ == pairs[n].0@;
                assert(pairs[i].0@ != pairs[n].0@);
            }
        }
        assert(map_of(pairs).dom() =~= map_of(before).dom().insert(pairs[n].0@));
    }
}

impl RepoMap {
    #[verifier::type_invariant]
    spec fn well_formed(self) -> bool {
        distinct_keys(self.entries@)
    }

    /// A map of no components.
    pub fn new() -> (res: Self)
        ensures
            res@ == Map::<Seq<char>, Seq<char>>::empty(),
    {
        RepoMap { entries: Vec::new() }
    }

    /// The position of a component.
    fn position(&self, component: &str) -> (res: Option<usize>)
        ensures
            match res {
                Some(at) => at < self.entries@.len() && self.entries@[at as int].0@ == component@,
                None => forall|i: int|
                    0 <= i < self.entries@.len() ==> (#[trigger] self.entries@[i]).0@ != component@,
            },
    {
        let mut i: usize = 0;
        while i < self.entries.len()
            invariant
                i <= self.entries@.len(),
                forall|k: int|
                    0 <= k < i ==> (#[trigger] self.entries@[k]).0@ != component@,
            decreases self.entries@.len() - i,
        {
            if same_text(self.entries[i].0.as_str(), component) {
                return Some(i);
            }
            i = i + 1;
        }
        None
    }

    /// The repository of a component.
    pub fn get(&self, component: &str) -> (res: Option<&String>)
        ensures
            match res {
                Some(repo) => self@.contains_key(component@) && repo@ == self@[component@],
                None => !self@.contains_key(component@),
            },
    {
        proof {
            use_type_invariant(self);
            lemma_map_of(self.entries@);
        }
        match self.position(component) {
            Some(at) => Some(&self.entries[at].1),
            None => None,
        }
    }

    /// Sets the repository of a component.
    pub fn insert(&mut self, component: String, repo: String)
        ensures
            final(self)@ == old(self)@.insert(component@, repo@),
    {
        proof {
            use_type_invariant(&*self);
            lemma_map_of(self.entries@);
        }
        let at = self.position(component.as_str());
        let mut entries: Vec<(String, String)> = Vec::new();
        std::mem::swap(&mut entries, &mut self.entries);
        let ghost before = entries@;
        match at {
            Some(at) => {
                entries.set(at, (component, repo));
                proof {
                    assert forall|i: int, j: int|
                        0 <= i < j < entries@.len() implies (#[trigger] entries@[i]).0@ != (
                    #[trigger] entries@[j]).0@ by {
                        assert(before[i].0@ != before[j].0@);
                    }
                    let m = map_of(before).insert(component@, repo@);
                    assert forall|k: Seq<char>| #[trigger] m.contains_key(k) implies exists|i: int|
                        0 <= i < entries@.len() && (#[trigger] entries@[i]).0@ == k by {
                        if k == component@ {
                            assert(entries@[at as int].0@ == k);
                        } else {
                            assert(map_of(before).contains_key(k));
                            let i = choose|i: int|
                                0 <= i < before.len() && (#[trigger] before[i]).0@ == k;
                            assert(entries@[i].0@ == k);
                        }
                    }
                    lemma_same_map(entries@, m);
                }
            },
            None => {
                entries.push((component, repo));
                proof {
                    assert(entries@.drop_last() == before);
                    assert forall|i: int, j: int|
                        0 <= i < j < entries@.len() implies (#[trigger] entries@[i]).0@ != (
                    #[trigger] entries@[j]).0@ by {
                        if j < before.len() {
                            assert(before[i].0@ != before[j].0@);
                        } else {
                            assert(before[i].0@ != component@);
                        }
                    }
                }
            },
        }
        self.entries = entries;
    }

    /// How many components there are.
    pub fn len(&self) -> (res: usize)
        ensures
            self@.dom().finite(),
            res == self@.len(),
    {
        proof {
            use_type_invariant(self);
            lemma_map_of(self.entries@);
        }
        self.entries.len()
    }

    /// Whether there are no components.
    pub fn is_empty(&self) -> (res: bool)
        ensures
            res == (self@ == Map::<Seq<char>, Seq<char>>::empty()),
    {
        proof {
            use_type_invariant(self);
            lemma_map_of(self.entries@);
            if self.entries@.len() > 0 {
                assert(self@.contains_key(self.entries@[0].0@));
            }
        }
        self.entries.len() == 0
    }

    /// The map that pairs make.
    pub fn from_pairs(pairs: &Vec<(String, String)>) -> (res: Self)
        ensures
            res@ == map_of(pairs@),
    {
        let mut out = RepoMap::new();
        let mut i: usize = 0;
        assert(map_of(pairs@.take(0)) == Map::<Seq<char>, Seq<char>>::empty());
        while i < pairs.len()
            invariant
                i <= pairs@.len(),
                out@ == map_of(pairs@.take(i as int)),
            decreases pairs@.len() - i,
        {
            assert(pairs@.take(i + 1).drop_last() == pairs@.take(i as int));
            out.insert(pairs[i].0.clone(), pairs[i].1.clone());
            i = i + 1;
        }
        assert(pairs@.take(pairs@.len() as int) == pairs@);
        out
    }

    /// Whether each component has the same repository in `other`.
    fn within(&self, other: &RepoMap) -> (res: bool)
        ensures
            res == forall|k: Seq<char>| #[trigger]
                self@.contains_key(k) ==> other@.contains_key(k) && other@[k] == self@[k],
    {
        proof {
            use_type_invariant(self);
            lemma_map_of(self.entries@);
        }
        let mut i: usize = 0;
        while i < self.entries.len()
            invariant
                i <= self.entries@.len(),
                forall|j: int|
                    0 <= j < i ==> other@.contains_key((#[trigger] self.entries@[j]).0@)
                        && other@[self.entries@[j].0@] == self.entries@[j].1@,
                forall|j: int|
                    0 <= j < self.entries@.len() ==> self@.contains_key(
                        (#[trigger] self.entries@[j]).0@,
                    ) && self@[self.entries@[j].0@] == self.entries@[j].1@,
            decreases self.entries@.len() - i,
        {
            assert(self@.contains_key(self.entries@[i as int].0@));
            let same = match other.get(self.entries[i].0.as_str()) {
                Some(repo) => same_text(repo.as_str(), self.entries[i].1.as_str()),
                None => false,
            };
            if !same {
                return false;
            }
            i = i + 1;
        }
        assert forall|k: Seq<char>| #[trigger] self@.contains_key(k) implies other@.contains_key(k)
            && other@[k] == self@[k] by {
            let j = choose|j: int|
                0 <= j < self.entries@.len() && (#[trigger] self.entries@[j]).0@ == k;
            assert(self.entries@[j].0@ == k);
        }
        true
    }
}

/// Pairs of distinct keys make the map that has their keys and values.
proof fn lemma_same_map(pairs: Seq<(String, String)>, m: Map<Seq<char>, Seq<char>>)
    requires
        distinct_keys(pairs),
        forall|i: int|
            0 <= i < pairs.len() ==> m.contains_key((#[trigger] pairs[i]).0@) && m[pairs[i].0@]
                == pairs[i].1@,
        forall|k: Seq<char>| #[trigger]
            m.contains_key(k) ==> exists|i: int| 0 <= i < pairs.len() && (#[trigger] pairs[i]).0@ == k,
    ensures
        map_of(pairs) == m,
{
    lemma_map_of(pairs);
    let made = map_of(pairs);
    assert forall|k: Seq<char>|
        #![trigger made.dom().contains(k)]
        #![trigger m.dom().contains(k)]
        made.dom().contains(k) == m.dom().contains(k) && (m.dom().contains(k) ==> made[k] == m[k]) by {
        if made.contains_key(k) {
            let i = choose|i: int| 0 <= i < pairs.len() && (#[trigger] pairs[i]).0@ == k;
            assert(m.contains_key(pairs[i].0@));
        }
        if m.contains_key(k) {
            let i = choose|i: int| 0 <= i < pairs.len() && (#[trigger] pairs[i]).0@ == k;
            assert(made.contains_key(pairs[i].0@));
        }
    }
    assert(made =~= m);
}

impl PartialEq for RepoMap {
    fn eq(&self, other: &Self) -> (res: bool) {
        let res = self.within(other) && other.within(self);
        proof {
            if res {
                assert(self@ =~= other@);
            }
        }
        res
    }
}

impl vstd::std_specs::cmp::PartialEqSpecImpl for RepoMap {
    open spec fn obeys_eq_spec() -> bool {
        true
    }

    open spec fn eq_spec(&self, other: &Self) -> bool {
        self@ == other@
    }
}

impl Clone for RepoMap {
    fn clone(&self) -> (res: Self)
        ensures
            res@ == self@,
    {
        RepoMap::from_pairs(&self.entries)
    }
}

/// The configuration of the collector.
#[derive(Debug)]
pub struct CollectorConfig {
    /// Where logs are looked for; patterns are allowed.
    pub log_dirs: Vec<String>,
    /// How many seconds lie between two looks at the logs.
    pub scan_interval_secs: u64,
    /// The hour of the day, in UTC, at which a report is triggered.
    pub daily_trigger_hour: u8,
    /// How many distinct signatures trigger a report.
    pub distinct_count_threshold: u32,
    /// How long to rest after a report.
    pub cooldown_duration: Duration,
    /// How often to try again.
    pub max_retries: u32,
    /// How long to wait before the first retry.
    pub retry_base_delay: Duration,
    /// The repositories of components.
    pub repo_map: RepoMap,
}

/// What a [`CollectorConfig`] holds.
pub struct ConfigView {
    /// See [`CollectorConfig::log_dirs`].
    pub log_dirs: Seq<Seq<char>>,
    /// See [`CollectorConfig::scan_interval_secs`].
    pub scan_interval_secs: u64,
    /// See [`CollectorConfig::daily_trigger_hour`].
    pub daily_trigger_hour: u8,
    /// See [`CollectorConfig::distinct_count_threshold`].
    pub distinct_count_threshold: u32,
    /// See [`CollectorConfig::cooldown_duration`].
    pub cooldown_duration: Duration,
    /// See [`CollectorConfig::max_retries`].
    pub max_retries: u32,
    /// See [`CollectorConfig::retry_base_delay`].
    pub retry_base_delay: Duration,
    /// See [`CollectorConfig::repo_map`].
    pub repo_map: Map<Seq<char>, Seq<char>>,
}

impl View for CollectorConfig {
    type V = ConfigView;

    open spec fn view(&self) -> ConfigView {
        ConfigView {
            log_dirs: texts(self.log_dirs@),
            scan_interval_secs: self.scan_interval_secs,
            daily_trigger_hour: self.daily_trigger_hour,
            distinct_count_threshold: self.distinct_count_threshold,
            cooldown_duration: self.cooldown_duration,
            max_retries: self.max_retries,
            retry_base_delay: self.retry_base_delay,
            repo_map: self.repo_map@,
        }
    }
}

/// The configuration by default, with the given repositories.
pub open spec fn default_config(repo_map: Map<Seq<char>, Seq<char>>) -> ConfigView {
    ConfigView {
        log_dirs: seq![],
        scan_interval_secs: 300,
        daily_trigger_hour: 2,
        distinct_count_threshold: 20,
        cooldown_duration: Duration { secs: 3600, nanos: 0 },
        max_retries: 3,
        retry_base_delay: Duration { secs: 300, nanos: 0 },
        repo_map,
    }
}

/// What became of a file of repositories.
#[derive(Debug)]
pub enum RepoMapFile {
    /// It could not be read; what the system said.
    NotRead(String),
    /// It is not the TOML that was expected; what the parser said.
    NotToml(String),
    /// Its table of components.
    Components(Vec<(String, String)>),
}

impl Default for CollectorConfig {
    fn default() -> (res: Self)
        ensures
            res@ == default_config(Map::<Seq<char>, Seq<char>>::empty()),
    {
        CollectorConfig::with_repos(RepoMap::new())
    }
}

impl CollectorConfig {
    /// The configuration by default.
    pub fn new() -> (res: Self)
        ensures
            res@ == default_config(Map::<Seq<char>, Seq<char>>::empty()),
    {
        CollectorConfig::default()
    }

    /// The configuration by default, with the given repositories.
    fn with_repos(repo_map: RepoMap) -> (res: Self)
        ensures
            res@ == default_config(repo_map@),
    {
        let res = CollectorConfig {
            log_dirs: Vec::new(),
            scan_interval_secs: 300,
            daily_trigger_hour: 2,
            distinct_count_threshold: 20,
            cooldown_duration: Duration::from_secs(3600),
            max_retries: 3,
            retry_base_delay: Duration::from_secs(300),
            repo_map,
        };
        assert(texts(res.log_dirs@) == Seq::<Seq<char>>::empty());
        res
    }

    /// The configuration by default, with the repositories of the file at `path`.
    pub fn from_file(path: &str, file: &RepoMapFile) -> (res: Result<Self, CollectorError>)
        ensures
            match (*file, res) {
                (RepoMapFile::Components(pairs), Ok(config)) => config@ == default_config(
                    map_of(pairs@),
                ),
                (RepoMapFile::NotRead(message), Err(CollectorError::Io { source, path: p })) => {
                    source@ == message@ && p@ == path@
                },
                (
                    RepoMapFile::NotToml(message),
                    Err(CollectorError::TomlParse { source, path: p }),
                ) => { source@ == message@ && p@ == path@ },
                _ => false,
            },
    {
        match file {
            RepoMapFile::Components(pairs) => Ok(
                CollectorConfig::with_repos(RepoMap::from_pairs(pairs)),
            ),
            RepoMapFile::NotRead(message) => Err(
                CollectorError::Io { source: message.clone(), path: String::from_str(path) },
            ),
            RepoMapFile::NotToml(message) => Err(
                CollectorError::TomlParse { source: message.clone(), path: String::from_str(path) },
            ),
        }
    }

    /// The repository of a component.
    pub fn repo_for(&self, component: &str) -> (res: Option<&str>)
        ensures
            match res {
                Some(repo) => self@.repo_map.contains_key(component@) && repo@
                    == self@.repo_map[component@],
                None => !self@.repo_map.contains_key(component@),
            },
    {
        match self.repo_map.get(component) {
            Some(repo) => Some(repo.as_str()),
            None => None,
        }
    }
}

impl Clone for CollectorConfig {
    fn clone(&self) -> (res: Self)
        ensures
            res@ == self@,
    {
        CollectorConfig {
            log_dirs: copy_strings(&self.log_dirs),
            scan_interval_secs: self.scan_interval_secs,
            daily_trigger_hour: self.daily_trigger_hour,
            distinct_count_threshold: self.distinct_count_threshold,
            cooldown_duration: self.cooldown_duration,
            max_retries: self.max_retries,
            retry_base_delay: self.retry_base_delay,
            repo_map: self.repo_map.clone(),
        }
    }
}

/// Of the pairs with the same component the last counts.
pub proof fn law_the_last_pair_of_a_component_counts(pairs: Seq<(String, String)>, i: int)
    requires
        0 <= i < pairs.len(),
        forall|j: int| i < j < pairs.len() ==> (#[trigger] pairs[j]).0@ != pairs[i].0@,
    ensures
        map_of(pairs).contains_key(pairs[i].0@),
        map_of(pairs)[pairs[i].0@] == pairs[i].1@,
    decreases pairs.len(),
{
    let before = pairs.drop_last();
    if i < before.len() {
        assert(before[i] == pairs[i]);
        assert(pairs[before.len() as int].0@ != pairs[i].0@);
        assert forall|j: int| i < j < before.len() implies (#[trigger] before[j]).0@
            != before[i].0@ by {
            assert(pairs[j].0@ != pairs[i].0@);
        }
        law_the_last_pair_of_a_component_counts(before, i);
    }
}

/// A component that stands in no pair is not there.
pub proof fn law_components_come_from_pairs(pairs: Seq<(String, String)>, component: Seq<char>)
    requires
        forall|i: int| 0 <= i < pairs.len() ==> (#[trigger] pairs[i]).0@ != component,
    ensures
        !map_of(pairs).contains_key(component),
    decreases pairs.len(),
{
    if pairs.len() > 0 {
        let before = pairs.drop_last();
        assert(pairs[before.len() as int].0@ != component);
        assert forall|i: int| 0 <= i < before.len() implies (#[trigger] before[i]).0@
            != component by {
            assert(pairs[i].0@ != component);
        }
        law_components_come_from_pairs(before, component);
    }
}

/// By default, logs are looked at every five minutes; a report is triggered at
/// two, or by twenty distinct signatures, and followed by an hour of rest; and
/// there are three retries, the first after five minutes. The repositories are
/// those that are given, whatever they are.
pub proof fn law_defaults_do_not_rest_on_the_repositories(repo_map: Map<Seq<char>, Seq<char>>)
    ensures
        default_config(repo_map).repo_map == repo_map,
        default_config(repo_map).log_dirs.len() == 0,
        default_config(repo_map).scan_interval_secs == 5 * 60,
        default_config(repo_map).daily_trigger_hour == 2,
        default_config(repo_map).distinct_count_threshold == 20,
        default_config(repo_map).cooldown_duration.total_nanos() == 60 * 60 * NANOS_PER_SEC,
        default_config(repo_map).max_retries == 3,
        default_config(repo_map).retry_base_delay.total_nanos() == 5 * 60 * NANOS_PER_SEC,
{
}

/// Configurations of the same view are the same in every field.
pub proof fn law_views_of_configurations_tell_every_field(a: CollectorConfig, b: CollectorConfig)
    requires
        a@ == b@,
    ensures
        a.log_dirs@.len() == b.log_dirs@.len(),
        forall|i: int|
            0 <= i < a.log_dirs@.len() ==> (#[trigger] a.log_dirs@[i])@ == b.log_dirs@[i]@,
        a.scan_interval_secs == b.scan_interval_secs,
        a.daily_trigger_hour == b.daily_trigger_hour,
        a.distinct_count_threshold == b.distinct_count_threshold,
        a.cooldown_duration == b.cooldown_duration,
        a.max_retries == b.max_retries,
        a.retry_base_delay == b.retry_base_delay,
        a.repo_map@ == b.repo_map@,
{
    let one = texts(a.log_dirs@);
    let other = texts(b.log_dirs@);
    assert(one.len() == a.log_dirs@.len());
    assert(other.len() == b.log_dirs@.len());
    assert forall|i: int| 0 <= i < a.log_dirs@.len() implies (#[trigger] a.log_dirs@[i])@
        == b.log_dirs@[i]@ by {
        assert(one[i] == other[i]);
    }
}

} // verus!
