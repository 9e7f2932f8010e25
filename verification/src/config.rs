//! Container configuration files: their schema, the check of their version,
//! which files of a directory are read, and how the configurations of several
//! files are gathered, one per name.

use vstd::prelude::*;
use vstd::string::*;
use std::collections::HashMap;

verus! {

/// Container arguments for one engine.
pub struct EngineConfig {
    /// Arguments to pass to the engine verbatim
    pub engine_args: Option<Vec<String>>,
    /// Capabilities to add or remove for the container;
    /// for example `!cap_net_broadcast` drops the capability
    pub capabilities: Option<Vec<String>>,
    /// Environment variables to set
    pub env: Option<HashMap<String, String>>,
}

/// Configuration of one container: default settings and optional settings
/// per engine that are applied over the defaults.
pub struct Config {
    /// Name of the configuration
    pub name: String,
    /// Image used for the container
    pub image: String,
    /// Optional name to set for the container, otherwise randomly generated
    pub container_name: Option<String>,
    /// Dotfiles directory to use as /etc/skel
    pub dotfiles: Option<String>,
    /// Default setting used regardless of the engine
    pub default: Option<EngineConfig>,
    /// Override default settings if the engine is podman
    pub podman: Option<EngineConfig>,
    /// Override default settings if the engine is docker
    pub docker: Option<EngineConfig>,
}

/// A whole configuration file.
pub struct ConfigFile {
    /// Version of the configuration schema; absent means 1
    pub version: Option<u64>,
    /// All container configurations
    pub config: Option<Vec<Config>>,
}

/// Why a configuration file was refused.
#[derive(PartialEq, Eq, Structural, Clone, Copy, Debug)]
pub enum ConfigError {
    /// The file declares a schema version other than 1
    InvalidSchemaVersion(u64),
}

impl ConfigFile {
    /// The schema version the file declares, 1 when it declares none.
    pub open spec fn schema_version(self) -> u64 {
        match self.version {
            Some(v) => v,
            None => 1,
        }
    }

    /// The configurations of the file, none when it has no `config` table.
    pub open spec fn configs(self) -> Seq<Config> {
        match self.config {
            Some(v) => v@,
            None => Seq::empty(),
        }
    }

    /// Accepts a freshly parsed file whose schema version is 1 (or absent),
    /// and refuses any other version.
    pub fn check_schema_version(self) -> (r: Result<ConfigFile, ConfigError>)
        ensures
            self.schema_version() == 1 ==> r == Ok::<ConfigFile, ConfigError>(self),
            self.schema_version() != 1 ==> r == Err::<ConfigFile, ConfigError>(
                ConfigError::InvalidSchemaVersion(self.schema_version()),
            ),
    {
        let version: u64 = match self.version {
            Some(v) => v,
            None => 1,
        };
        if version != 1 {
            return Err(ConfigError::InvalidSchemaVersion(version));
        }
        Ok(self)
    }
}

/// Whether the dot at `k` is the last dot of the file name `name` and does
/// not start it: the dot that `std::path::Path::extension` splits at.
pub open spec fn is_extension_dot(name: Seq<char>, k: int) -> bool {
    &&& 1 <= k < name.len()
    &&& name[k] == '.'
    &&& forall|j: int| k < j < name.len() ==> name[j] != '.'
}

/// Whether a directory entry named `name` has the extension `toml`, as
/// `std::path::Path::extension` reads it: what follows the last dot, where a
/// dot that starts the name does not count.
pub open spec fn has_toml_extension(name: Seq<char>) -> bool {
    exists|k: int| #[trigger] is_extension_dot(name, k) && name.subrange(k + 1, name.len() as int) == "toml"@
}

/// A file without a `version` has schema version 1, one with a version has
/// that version; so a file is accepted exactly when it declares no version
/// or version 1.
pub proof fn lemma_schema_version(file: ConfigFile)
    ensures
        file.version is None ==> file.schema_version() == 1,
        file.version matches Some(v) ==> file.schema_version() == v,
        file.schema_version() == 1 <==> (file.version is None || file.version == Some(1u64)),
{
}

/// A file's configurations are its `config` list, whatever version it
/// declares; a file without that list has none.
pub proof fn lemma_file_configs(file: ConfigFile)
    ensures
        file.config matches Some(v) ==> file.configs() == v@,
        file.config is None ==> file.configs().len() == 0,
        forall|version: Option<u64>|
            #[trigger] (ConfigFile { version: version, config: file.config }).configs() == file.configs(),
{
}

/// A name has the extension `toml` exactly when it is longer than `.toml`
/// and ends with it.
pub proof fn lemma_toml_extension_is_suffix(name: Seq<char>)
    ensures
        has_toml_extension(name) <==> name.len() >= 6 && name.subrange(name.len() - 5, name.len() as int) == ".toml"@,
{
    reveal_strlit("toml");
    reveal_strlit(".toml");
    let n: int = name.len() as int;
    if n >= 6 && name.subrange(n - 5, n) == ".toml"@ {
        assert(name.subrange(n - 5, n)[0] == '.');
        assert forall|j: int| n - 5 < j < n implies name[j] != '.' by {
            assert(name[j] == name.subrange(n - 5, n)[j - (n - 5)]);
        }
        assert(name.subrange(n - 4, n) =~= "toml"@) by {
            assert forall|j: int| 0 <= j < 4 implies name.subrange(n - 4, n)[j] == "toml"@[j] by {
                assert(name.subrange(n - 4, n)[j] == name.subrange(n - 5, n)[j + 1]);
            }
        }
        assert(is_extension_dot(name, n - 5));
    }
    if has_toml_extension(name) {
        let k: int = choose|k: int| #[trigger] is_extension_dot(name, k) && name.subrange(k + 1, name.len() as int) == "toml"@;
        assert(name.subrange(k + 1, n).len() == 4);
        assert(k == n - 5);
        assert(name.subrange(n - 5, n) =~= ".toml"@) by {
            assert forall|j: int| 1 <= j < 5 implies name.subrange(n - 5, n)[j] == ".toml"@[j] by {
                assert(name.subrange(n - 5, n)[j] == name.subrange(k + 1, n)[j - 1]);
            }
        }
    }
}

/// Whether the directory entry named `name` is a configuration file, that is
/// has the extension `toml`.
pub fn is_config_file_name(name: &str) -> (r: bool)
    ensures
        r == has_toml_extension(name@),
{
    proof {
        reveal_strlit("toml");
    }
    let len: usize = name.unicode_len();
    let r: bool = len >= 6 && name.get_char(len - 5) == '.' && name.get_char(len - 4) == 't'
        && name.get_char(len - 3) == 'o' && name.get_char(len - 2) == 'm'
        && name.get_char(len - 1) == 'l';
    proof {
        let s = name@;
        let n: int = s.len() as int;
        if r {
            assert(s.subrange(n - 4, n) =~= "toml"@);
            assert(forall|j: int| n - 5 < j < n ==> s[j] != '.');
            assert(1 <= n - 5 < n && s[n - 5] == '.');
            assert(is_extension_dot(s, n - 5));
            assert(s.subrange((n - 5) + 1, n) == "toml"@);
        }
        if has_toml_extension(s) {
            let k: int = choose|k: int| #[trigger] is_extension_dot(s, k) && s.subrange(k + 1, s.len() as int) == "toml"@;
            assert(s.subrange(k + 1, n).len() == 4);
            assert(k == n - 5);
            assert(s.subrange(k + 1, n)[0] == 't');
            assert(s.subrange(k + 1, n)[1] == 'o');
            assert(s.subrange(k + 1, n)[2] == 'm');
            assert(s.subrange(k + 1, n)[3] == 'l');
        }
    }
    r
}

/// The positions, in listing order, of the entries of a directory listing
/// `names` that are configuration files.
pub open spec fn config_file_indices(names: Seq<Seq<char>>) -> Seq<int>
    decreases names.len(),
{
    if names.len() == 0 {
        Seq::empty()
    } else {
        let prev = config_file_indices(names.drop_last());
        if has_toml_extension(names.last()) {
            prev.push(names.len() - 1)
        } else {
            prev
        }
    }
}

/// The positions, in listing order, of the entries named `names` that are
/// configuration files: those with the extension `toml`; no other entry of
/// the listing is read.
pub fn select_config_files(names: &Vec<String>) -> (selected: Vec<usize>)
    ensures
        selected@.map_values(|i: usize| i as int) == config_file_indices(names.deep_view()),
{
    let ghost all = names.deep_view();
    let mut selected: Vec<usize> = Vec::new();
    let mut i: usize = 0;
    while i < names.len()
        invariant
            0 <= i <= names.len(),
            all == names.deep_view(),
            selected@.map_values(|i: usize| i as int) == config_file_indices(all.take(i as int)),
        decreases names.len() - i,
    {
        let ghost before = selected@;
        let toml = is_config_file_name(names[i].as_str());
        if toml {
            selected.push(i);
        }
        proof {
            assert(all.take(i + 1).drop_last() =~= all.take(i as int));
            assert(all.take(i + 1).last() == names[i as int]@);
            if toml {
                assert(selected@.map_values(|i: usize| i as int)
                    =~= before.map_values(|i: usize| i as int).push(i as int));
            }
        }
        i = i + 1;
    }
    proof {
        assert(all.take(names.len() as int) =~= all);
    }
    selected
}

/// The entries selected are exactly the configuration files of the listing,
/// in listing order: their names are the listing with every entry that has
/// no `toml` extension left out. So two listings that differ only in other
/// entries select the same files, in the same order.
pub proof fn lemma_selected_are_config_files(names: Seq<Seq<char>>)
    ensures
        forall|k: int| 0 <= k < config_file_indices(names).len()
            ==> 0 <= #[trigger] config_file_indices(names)[k] < names.len(),
        config_file_indices(names).map_values(|i: int| names[i])
            == names.filter(|n: Seq<char>| has_toml_extension(n)),
    decreases names.len(),
{
    reveal_with_fuel(Seq::<_>::filter, 1);
    if names.len() > 0 {
        let init = names.drop_last();
        lemma_selected_are_config_files(init);
        let prev = config_file_indices(init);
        assert(prev.map_values(|i: int| names[i]) =~= prev.map_values(|i: int| init[i]));
        let cur = config_file_indices(names);
        if has_toml_extension(names.last()) {
            assert(cur.map_values(|i: int| names[i]) =~= prev.map_values(|i: int| names[i]).push(names.last()));
        }
    }
}

/// Two directory listings that differ only in entries without the `toml`
/// extension (and agree on the order of the others) select configuration
/// files of the same names, in the same order.
pub proof fn lemma_other_entries_ignored(a: Seq<Seq<char>>, b: Seq<Seq<char>>)
    requires
        a.filter(|n: Seq<char>| has_toml_extension(n)) == b.filter(|n: Seq<char>| has_toml_extension(n)),
    ensures
        config_file_indices(a).map_values(|i: int| a[i]) == config_file_indices(b).map_values(|i: int| b[i]),
{
    lemma_selected_are_config_files(a);
    lemma_selected_are_config_files(b);
}

/// The names of the configurations, in order.
pub open spec fn config_names(configs: Seq<Config>) -> Seq<Seq<char>> {
    configs.map_values(|c: Config| c.name@)
}

/// No two configurations share a name.
pub open spec fn names_unique(configs: Seq<Config>) -> bool {
    forall|i: int, j: int|
        0 <= i < j < configs.len() ==> #[trigger] configs[i].name@ != #[trigger] configs[j].name@
}

/// Adds the configurations `incoming`, in order, to those `known`: one whose
/// name is taken already is left out, and its name recorded. The result is
/// the configurations kept and the names left out.
pub open spec fn merge_configs_spec(known: Seq<Config>, incoming: Seq<Config>)
    -> (Seq<Config>, Seq<Seq<char>>)
    decreases incoming.len(),
{
    if incoming.len() == 0 {
        (known, Seq::empty())
    } else {
        let prev = merge_configs_spec(known, incoming.drop_last());
        let c = incoming.last();
        if config_names(prev.0).contains(c.name@) {
            (prev.0, prev.1.push(c.name@))
        } else {
            (prev.0.push(c), prev.1)
        }
    }
}

/// Whether a configuration among `configs` is named `name`.
fn contains_name(configs: &Vec<Config>, name: &String) -> (r: bool)
    ensures
        r == config_names(configs@).contains(name@),
{
    let mut i: usize = 0;
    while i < configs.len()
        invariant
            0 <= i <= configs.len(),
            forall|j: int| 0 <= j < i ==> configs@[j].name@ != name@,
        decreases configs.len() - i,
    {
        if configs[i].name == *name {
            assert(config_names(configs@)[i as int] == name@);
            return true;
        }
        i = i + 1;
    }
    proof {
        if config_names(configs@).contains(name@) {
            let j: int = choose|j: int| 0 <= j < config_names(configs@).len() && config_names(configs@)[j] == name@;
            assert(configs@[j].name@ == name@);
        }
    }
    false
}

/// Configurations gathered from several files are held in a vector in which
/// no two share a name, rather than in a map keyed by name: with `String`
/// keys Verus proves nothing of what a `HashMap` holds, while of a vector it
/// proves which configuration each name keeps (`lemma_merge_first_wins`).
///
/// Adds the configurations `incoming`, in order, to `configs`, leaving out
/// each one whose name is taken already (by an earlier one or one added
/// before it), and returns the names of those left out, in order.
pub fn merge_configs(configs: &mut Vec<Config>, incoming: Vec<Config>) -> (ignored: Vec<String>)
    ensures
        (final(configs)@, ignored.deep_view()) == merge_configs_spec(old(configs)@, incoming@),
{
    let ghost start = configs@;
    let ghost all = incoming@;
    let mut rest = incoming;
    let mut ignored: Vec<String> = Vec::new();
    let ghost mut done: int = 0;
    while rest.len() > 0
        invariant
            0 <= done <= all.len(),
            rest@ == all.skip(done),
            (configs@, ignored.deep_view()) == merge_configs_spec(start, all.take(done)),
        decreases rest.len(),
    {
        let c = rest.remove(0);
        proof {
            assert(c == all[done]);
            assert(all.take(done + 1).drop_last() =~= all.take(done));
            assert(all.take(done + 1).last() == c);
        }
        if contains_name(configs, &c.name) {
            let ghost before = ignored.deep_view();
            ignored.push(c.name.clone());
            assert(ignored.deep_view() =~= before.push(c.name@));
        } else {
            configs.push(c);
        }
        proof {
            assert(rest@ =~= all.skip(done + 1));
            done = done + 1;
        }
    }
    proof {
        assert(all.take(done) =~= all);
    }
    ignored
}


/// Adds the configurations of the configuration file `file` to `configs`, as
/// `merge_configs` does, and returns the names left out.
pub fn add_config_file(configs: &mut Vec<Config>, file: ConfigFile) -> (ignored: Vec<String>)
    ensures
        (final(configs)@, ignored.deep_view()) == merge_configs_spec(old(configs)@, file.configs()),
{
    let incoming = match file.config {
        Some(v) => v,
        None => Vec::new(),
    };
    proof {
        assert(incoming@ =~= file.configs());
    }
    merge_configs(configs, incoming)
}

/// Merging never takes anything away: the configurations known before come
/// first, unchanged, and every later one is one of those added.
pub proof fn lemma_merge_keeps_known(known: Seq<Config>, incoming: Seq<Config>)
    ensures
        merge_configs_spec(known, incoming).0.len() >= known.len(),
        merge_configs_spec(known, incoming).0.subrange(0, known.len() as int) == known,
        forall|k: int| known.len() <= k < merge_configs_spec(known, incoming).0.len()
            ==> incoming.contains(#[trigger] merge_configs_spec(known, incoming).0[k]),
    decreases incoming.len(),
{
    if incoming.len() > 0 {
        lemma_merge_keeps_known(known, incoming.drop_last());
        let prev = merge_configs_spec(known, incoming.drop_last()).0;
        let cur = merge_configs_spec(known, incoming).0;
        assert(prev.subrange(0, known.len() as int) == known);
        assert(cur.subrange(0, known.len() as int) =~= prev.subrange(0, known.len() as int));
        assert forall|k: int| known.len() <= k < cur.len() implies incoming.contains(#[trigger] cur[k]) by {
            if k < prev.len() {
                assert(incoming.drop_last().contains(prev[k]));
                let j: int = choose|j: int| 0 <= j < incoming.drop_last().len() && incoming.drop_last()[j] == prev[k];
                assert(incoming[j] == cur[k]);
            } else {
                assert(cur[k] == incoming[incoming.len() - 1]);
            }
        }
    }
}

/// Configurations whose names are all different keep that property when
/// more are merged in: the result holds at most one configuration per name.
pub proof fn lemma_merge_keeps_names_unique(known: Seq<Config>, incoming: Seq<Config>)
    requires
        names_unique(known),
    ensures
        names_unique(merge_configs_spec(known, incoming).0),
    decreases incoming.len(),
{
    if incoming.len() > 0 {
        lemma_merge_keeps_names_unique(known, incoming.drop_last());
        let prev = merge_configs_spec(known, incoming.drop_last()).0;
        let c = incoming.last();
        if !config_names(prev).contains(c.name@) {
            let cur = prev.push(c);
            assert forall|i: int, j: int| 0 <= i < j < cur.len() implies
                #[trigger] cur[i].name@ != #[trigger] cur[j].name@ by {
                if j == prev.len() {
                    assert(config_names(prev)[i] == prev[i].name@);
                }
            }
        }
    }
}

/// Every name among the configurations merged is the name of a configuration
/// in the result, and the result holds no other names.
pub proof fn lemma_merge_keeps_every_name(known: Seq<Config>, incoming: Seq<Config>)
    ensures
        forall|n: Seq<char>|
            #[trigger] config_names(merge_configs_spec(known, incoming).0).contains(n)
                <==> config_names(known + incoming).contains(n),
    decreases incoming.len(),
{
    if incoming.len() > 0 {
        let init = incoming.drop_last();
        lemma_merge_keeps_every_name(known, init);
        let prev = merge_configs_spec(known, init).0;
        let cur = merge_configs_spec(known, incoming).0;
        let c = incoming.last();
        assert((known + incoming) =~= (known + init).push(c));
        assert(config_names((known + init).push(c)) =~= config_names(known + init).push(c.name@));
        if !config_names(prev).contains(c.name@) {
            assert(config_names(cur) =~= config_names(prev).push(c.name@));
        }
        assert forall|n: Seq<char>|
            #[trigger] config_names(cur).contains(n) <==> config_names(known + incoming).contains(n) by {
            assert(config_names(prev).contains(n) <==> config_names(known + init).contains(n));
            if n == c.name@ {
                assert(config_names(known + init).push(c.name@)[config_names(known + init).len() as int] == n);
                assert(config_names(prev).push(c.name@)[config_names(prev).len() as int] == n);
            }
            if config_names(known + init).contains(n) {
                assert(config_names(known + init).push(c.name@).contains(n)) by {
                    let j: int = choose|j: int| 0 <= j < config_names(known + init).len() && config_names(known + init)[j] == n;
                    assert(config_names(known + init).push(c.name@)[j] == n);
                }
            }
            if config_names(known + init).push(c.name@).contains(n) {
                let j: int = choose|j: int| 0 <= j < config_names(known + init).push(c.name@).len()
                    && config_names(known + init).push(c.name@)[j] == n;
                if j < config_names(known + init).len() {
                    assert(config_names(known + init).contains(n));
                }
            }
            if config_names(prev).push(c.name@).contains(n) {
                let j: int = choose|j: int| 0 <= j < config_names(prev).push(c.name@).len()
                    && config_names(prev).push(c.name@)[j] == n;
                if j < config_names(prev).len() {
                    assert(config_names(prev).contains(n));
                }
            }
            if config_names(prev).contains(n) {
                let j: int = choose|j: int| 0 <= j < config_names(prev).len() && config_names(prev)[j] == n;
                assert(config_names(prev).push(c.name@)[j] == n);
            }
        }
    }
}

/// Configurations whose names are all different, those known and those
/// merged in, are all kept, in order, and none is left out.
pub proof fn lemma_merge_fresh_keeps_all(known: Seq<Config>, incoming: Seq<Config>)
    requires
        names_unique(known + incoming),
    ensures
        merge_configs_spec(known, incoming).0 == known + incoming,
        merge_configs_spec(known, incoming).1.len() == 0,
    decreases incoming.len(),
{
    if incoming.len() > 0 {
        let init = incoming.drop_last();
        let c = incoming.last();
        let all = known + incoming;
        assert(known + init =~= all.drop_last());
        assert forall|i: int, j: int| 0 <= i < j < (known + init).len() implies
            #[trigger] (known + init)[i].name@ != #[trigger] (known + init)[j].name@ by {
            assert((known + init)[i] == all[i]);
            assert((known + init)[j] == all[j]);
        }
        lemma_merge_fresh_keeps_all(known, init);
        let prev = merge_configs_spec(known, init).0;
        assert(prev == known + init);
        assert(!config_names(prev).contains(c.name@)) by {
            if config_names(prev).contains(c.name@) {
                let i: int = choose|i: int| 0 <= i < config_names(prev).len() && config_names(prev)[i] == c.name@;
                assert(prev[i] == all[i]);
                assert(all[all.len() - 1] == c);
                assert(all[i].name@ != all[all.len() - 1].name@);
            }
        }
        assert(prev.push(c) =~= known + incoming);
    }
}

/// Every configuration merged in is either kept or has its name reported,
/// and every name reported belongs to a configuration that is kept and to
/// one of those merged in.
pub proof fn lemma_merge_accounts_for_all(known: Seq<Config>, incoming: Seq<Config>)
    ensures
        merge_configs_spec(known, incoming).0.len() + merge_configs_spec(known, incoming).1.len()
            == known.len() + incoming.len(),
        forall|k: int| 0 <= k < merge_configs_spec(known, incoming).1.len() ==>
            config_names(merge_configs_spec(known, incoming).0).contains(#[trigger] merge_configs_spec(known, incoming).1[k])
            && config_names(incoming).contains(merge_configs_spec(known, incoming).1[k]),
    decreases incoming.len(),
{
    if incoming.len() > 0 {
        let init = incoming.drop_last();
        let c = incoming.last();
        lemma_merge_accounts_for_all(known, init);
        let prev = merge_configs_spec(known, init);
        let cur = merge_configs_spec(known, incoming);
        assert forall|k: int| 0 <= k < cur.1.len() implies
            config_names(cur.0).contains(#[trigger] cur.1[k]) && config_names(incoming).contains(cur.1[k]) by {
            assert(config_names(incoming)[incoming.len() - 1] == c.name@);
            if k < prev.1.len() {
                assert(cur.1[k] == prev.1[k]);
                assert(config_names(prev.0).contains(prev.1[k]));
                assert(config_names(init).contains(prev.1[k]));
                let j: int = choose|j: int| 0 <= j < config_names(init).len() && config_names(init)[j] == prev.1[k];
                assert(config_names(incoming)[j] == config_names(init)[j]);
                let m: int = choose|m: int| 0 <= m < config_names(prev.0).len() && config_names(prev.0)[m] == prev.1[k];
                assert(config_names(cur.0)[m] == config_names(prev.0)[m]);
            } else {
                assert(cur.1[k] == c.name@);
            }
        }
    }
}

/// Merging one file after another gives what merging their configurations
/// all at once gives: the same configurations, and the same names left out,
/// in the same order.
pub proof fn lemma_merge_in_steps(known: Seq<Config>, first: Seq<Config>, second: Seq<Config>)
    ensures
        merge_configs_spec(merge_configs_spec(known, first).0, second).0
            == merge_configs_spec(known, first + second).0,
        merge_configs_spec(known, first).1 + merge_configs_spec(merge_configs_spec(known, first).0, second).1
            == merge_configs_spec(known, first + second).1,
    decreases second.len(),
{
    if second.len() == 0 {
        assert(first + second =~= first);
        assert(merge_configs_spec(known, first).1 + Seq::<Seq<char>>::empty() =~= merge_configs_spec(known, first).1);
    } else {
        lemma_merge_in_steps(known, first, second.drop_last());
        assert((first + second).drop_last() =~= first + second.drop_last());
        assert((first + second).last() == second.last());
        let mid = merge_configs_spec(known, first);
        let step = merge_configs_spec(mid.0, second.drop_last());
        let c = second.last();
        if config_names(step.0).contains(c.name@) {
            assert(mid.1 + step.1.push(c.name@) =~= (mid.1 + step.1).push(c.name@));
        }
    }
}


/// The configuration at `j` is the first of `configs` with its name.
pub open spec fn is_first_of_name(configs: Seq<Config>, j: int) -> bool {
    &&& 0 <= j < configs.len()
    &&& forall|i: int| 0 <= i < j ==> #[trigger] configs[i].name@ != configs[j].name@
}

/// `c` is the first configuration of `all` with its name.
pub open spec fn is_first_in(all: Seq<Config>, c: Config) -> bool {
    exists|j: int| #[trigger] is_first_of_name(all, j) && all[j] == c
}

/// Each configuration of `kept` is the first of `all` with its name.
pub open spec fn all_first_of_name(all: Seq<Config>, kept: Seq<Config>) -> bool {
    forall|k: int| 0 <= k < kept.len() ==> is_first_in(all, #[trigger] kept[k])
}

/// The first one wins: each configuration kept is the first configuration
/// with its name among those known and those merged in, so a later one of
/// the same name, in the same file or a later one, never replaces it.
pub proof fn lemma_merge_first_wins(known: Seq<Config>, incoming: Seq<Config>)
    requires
        names_unique(known),
    ensures
        all_first_of_name(known + incoming, merge_configs_spec(known, incoming).0),
    decreases incoming.len(),
{
    let all = known + incoming;
    let kept = merge_configs_spec(known, incoming).0;
    if incoming.len() == 0 {
        assert(all =~= known);
        assert forall|k: int| #![trigger kept[k]] 0 <= k < kept.len() implies
            is_first_in(all, kept[k]) by {
            assert(is_first_of_name(all, k) && all[k] == kept[k]);
        }
        assert(all_first_of_name(all, kept));
    } else {
        let init = incoming.drop_last();
        let c = incoming.last();
        lemma_merge_first_wins(known, init);
        lemma_merge_keeps_every_name(known, init);
        let prev = merge_configs_spec(known, init).0;
        let all_init = known + init;
        assert(all =~= all_init.push(c));
        assert forall|k: int| #![trigger kept[k]] 0 <= k < kept.len() implies
            is_first_in(all, kept[k]) by {
            if k < prev.len() {
                assert(kept[k] == prev[k]);
                assert(is_first_in(all_init, prev[k]));
                let j: int = choose|j: int| #[trigger] is_first_of_name(all_init, j) && all_init[j] == prev[k];
                assert(all[j] == all_init[j]);
                assert forall|i: int| 0 <= i < j implies #[trigger] all[i].name@ != all[j].name@ by {
                    assert(all[i] == all_init[i]);
                }
                assert(is_first_of_name(all, j) && all[j] == kept[k]);
            } else {
                // the newly kept configuration: no name before it is its own
                let j: int = all.len() - 1;
                assert(!config_names(prev).contains(c.name@));
                assert(!config_names(all_init).contains(c.name@));
                assert forall|i: int| 0 <= i < j implies #[trigger] all[i].name@ != all[j].name@ by {
                    assert(all[i] == all_init[i]);
                    assert(config_names(all_init)[i] == all_init[i].name@);
                }
                assert(kept[k] == c);
                assert(is_first_of_name(all, j) && all[j] == kept[k]);
            }
        }
        assert(all_first_of_name(all, kept));
    }
}

/// Gathering configurations from nothing: every configuration kept is the
/// first in `configs` with its name.
pub proof fn lemma_gathered_first_wins(configs: Seq<Config>)
    ensures
        all_first_of_name(configs, merge_configs_spec(Seq::empty(), configs).0),
{
    lemma_merge_first_wins(Seq::empty(), configs);
    assert(Seq::<Config>::empty() + configs =~= configs);
}

} // verus!
