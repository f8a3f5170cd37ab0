//! The pgCrab configuration (`.config/pgcrab.toml`), where it is looked for,
//! and the checks made on it.
use crate::lint::schema::{all_schema_rules, schema_rules, SchemaDiagnosticRule};
use crate::name_map::NameMap;
use crate::text::{chars_of, copy_string, push_char, string_views};
use vstd::prelude::*;
use vstd::utf8::encode_utf8;

verus! {

/// Where to find the pgCrab config file, relative to a directory it applies within.
pub const CONFIG_RELATIVE_PATH: &'static str = ".config/pgcrab.toml";

/// Known file and directory names that identify the root of a
/// version-controlled repository.
pub open spec fn version_control_markers() -> Seq<Seq<char>> {
    seq![".git"@, ".svn"@, ".hg"@, ".bzr"@, "_darcs"@, ".pijul"@]
}

/// The names whose presence marks a repository's root, in the order they are tried.
pub fn version_control_root_relative_paths() -> (v: Vec<&'static str>)
    ensures
        v@.map_values(|s: &str| s@) == version_control_markers(),
{
    let v = vec![".git", ".svn", ".hg", ".bzr", "_darcs", ".pijul"];
    assert(v@.map_values(|s: &str| s@) =~= version_control_markers());
    v
}

/// The outcome of looking for a config file.
pub enum ConfigFileFind {
    /// Found a config file at the given path.
    Found { config_path: String },
    /// Reached the root of a version-controlled repository before finding one.
    StoppedAtVersionControl {
        /// Root of the version-controlled repository.
        repository_root: String,
    },
    /// Stopped at the file system's root or at the user's home directory,
    /// without meeting a version-controlled repository.
    StoppedAtHardBoundary,
}

/// What the search does after looking at one directory.
pub enum ConfigSearchStep {
    /// The search is over.
    Done(ConfigFileFind),
    /// Go on in the given parent directory.
    Ascend(String),
}

/// Decides, for the directory the search is at, whether the search ends and
/// how. `config_path` is where the config file would be in it,
/// `config_exists` whether it is there, `version_control_root` whether one of
/// the repository markers is there, `at_home` whether it is the user's home
/// directory, and `parent` its parent directory, if it has one.
pub fn config_search_step(
    dir: String,
    config_path: String,
    config_exists: bool,
    version_control_root: bool,
    at_home: bool,
    parent: Option<String>,
) -> (r: ConfigSearchStep)
    ensures
        config_exists ==> (r matches ConfigSearchStep::Done(ConfigFileFind::Found { config_path: p })
            && p@ == config_path@),
        !config_exists && version_control_root ==> (r matches ConfigSearchStep::Done(
            ConfigFileFind::StoppedAtVersionControl { repository_root: p },
        ) && p@ == dir@),
        !config_exists && !version_control_root && (at_home || parent is None) ==> r matches ConfigSearchStep::Done(ConfigFileFind::StoppedAtHardBoundary),
        !config_exists && !version_control_root && !at_home && parent is Some ==> (r matches ConfigSearchStep::Ascend(p) && p@ == parent.unwrap()@),
{
    if config_exists {
        return ConfigSearchStep::Done(ConfigFileFind::Found { config_path });
    }
    if version_control_root {
        return ConfigSearchStep::Done(ConfigFileFind::StoppedAtVersionControl { repository_root: dir });
    }
    if at_home {
        return ConfigSearchStep::Done(ConfigFileFind::StoppedAtHardBoundary);
    }
    match parent {
        None => ConfigSearchStep::Done(ConfigFileFind::StoppedAtHardBoundary),
        Some(p) => ConfigSearchStep::Ascend(p),
    }
}

/// What the search finds out in one directory: where the config file would
/// be, whether it is there, whether a repository marker is there, and
/// whether the directory is the user's home.
pub struct DirectoryFacts {
    pub dir: String,
    pub config_path: String,
    pub config_exists: bool,
    pub version_control_root: bool,
    pub at_home: bool,
}

pub struct DirectoryFactsView {
    pub dir: Seq<char>,
    pub config_path: Seq<char>,
    pub config_exists: bool,
    pub version_control_root: bool,
    pub at_home: bool,
}

impl View for DirectoryFacts {
    type V = DirectoryFactsView;

    open spec fn view(&self) -> DirectoryFactsView {
        DirectoryFactsView {
            dir: self.dir@,
            config_path: self.config_path@,
            config_exists: self.config_exists,
            version_control_root: self.version_control_root,
            at_home: self.at_home,
        }
    }
}

/// The outcome of a search, with paths as character sequences.
pub enum ConfigFileFindView {
    Found { config_path: Seq<char> },
    StoppedAtVersionControl { repository_root: Seq<char> },
    StoppedAtHardBoundary,
}

pub open spec fn find_view(f: ConfigFileFind) -> ConfigFileFindView {
    match f {
        ConfigFileFind::Found { config_path } => ConfigFileFindView::Found { config_path: config_path@ },
        ConfigFileFind::StoppedAtVersionControl { repository_root } => ConfigFileFindView::StoppedAtVersionControl {
            repository_root: repository_root@,
        },
        ConfigFileFind::StoppedAtHardBoundary => ConfigFileFindView::StoppedAtHardBoundary,
    }
}

pub open spec fn facts_views(v: Seq<DirectoryFacts>) -> Seq<DirectoryFactsView> {
    v.map_values(|f: DirectoryFacts| f@)
}

/// The search ends in this directory (`is_top`: it has no parent).
pub open spec fn search_stops(f: DirectoryFactsView, is_top: bool) -> bool {
    f.config_exists || f.version_control_root || f.at_home || is_top
}

/// How the search ends in a directory where it stops.
pub open spec fn stop_outcome(f: DirectoryFactsView) -> ConfigFileFindView {
    if f.config_exists {
        ConfigFileFindView::Found { config_path: f.config_path }
    } else if f.version_control_root {
        ConfigFileFindView::StoppedAtVersionControl { repository_root: f.dir }
    } else {
        ConfigFileFindView::StoppedAtHardBoundary
    }
}

/// The search over the directories of `chain`, from the `i`-th up (each
/// next one the parent of the one before, the last one without a parent):
/// its outcome, and the index of the directory where it stopped.
pub open spec fn search_from(chain: Seq<DirectoryFactsView>, i: int) -> (ConfigFileFindView, int)
    decreases chain.len() - i,
{
    if i < 0 || i + 1 >= chain.len() || search_stops(chain[i], false) {
        (stop_outcome(chain[i]), i)
    } else {
        search_from(chain, i + 1)
    }
}

/// Runs the search over a chain of directories, from the first (where it
/// starts) up, deciding each step with `config_search_step`: gives the
/// outcome and the index of the directory where the search stopped.
pub fn search_config(chain: &Vec<DirectoryFacts>) -> (r: (ConfigFileFind, usize))
    requires
        chain.len() > 0,
    ensures
        (find_view(r.0), r.1 as int) == search_from(facts_views(chain@), 0),
{
    let ghost c = facts_views(chain@);
    let mut i: usize = 0;
    loop
        invariant
            c == facts_views(chain@),
            chain.len() > 0,
            i < chain.len(),
            search_from(c, i as int) == search_from(c, 0),
        decreases chain.len() - i,
    {
        let f = &chain[i];
        assert(c[i as int] == f@);
        let parent = if i + 1 < chain.len() {
            Some(copy_string(&chain[i + 1].dir))
        } else {
            None
        };
        match config_search_step(
            copy_string(&f.dir),
            copy_string(&f.config_path),
            f.config_exists,
            f.version_control_root,
            f.at_home,
            parent,
        ) {
            ConfigSearchStep::Done(find) => {
                return (find, i);
            },
            ConfigSearchStep::Ascend(_) => {
                i = i + 1;
            },
        }
    }
}

proof fn lemma_search_agrees(c1: Seq<DirectoryFactsView>, c2: Seq<DirectoryFactsView>, k: int, i: int)
    requires
        0 <= i <= k,
        k < c1.len(),
        k < c2.len(),
        c1[k].at_home,
        c1.subrange(0, k + 1) == c2.subrange(0, k + 1),
    ensures
        search_from(c1, i) == search_from(c2, i),
        search_from(c1, i).1 <= k,
    decreases k - i,
{
    assert(c1[i] == c1.subrange(0, k + 1)[i]);
    assert(c2[i] == c2.subrange(0, k + 1)[i]);
    assert(c1[k] == c1.subrange(0, k + 1)[k]);
    assert(c2[k] == c2.subrange(0, k + 1)[k]);
    if i < k {
        lemma_search_agrees(c1, c2, k, i + 1);
    }
}

/// The search never looks above the user's home: when the `k`-th directory
/// of the chain is the home directory, the search stops there or below,
/// and what lies above it (the rest of the chain) changes nothing.
pub proof fn lemma_search_stops_at_home(
    c1: Seq<DirectoryFactsView>,
    c2: Seq<DirectoryFactsView>,
    k: int,
)
    requires
        0 <= k < c1.len(),
        k < c2.len(),
        c1[k].at_home,
        c1.subrange(0, k + 1) == c2.subrange(0, k + 1),
    ensures
        search_from(c1, 0) == search_from(c2, 0),
        search_from(c1, 0).1 <= k,
{
    lemma_search_agrees(c1, c2, k, 0);
}

/// Whether the glob `glob` matches `path`, as `fast_glob::glob_match`
/// decides on their bytes.
pub uninterp spec fn glob_matches(glob: Seq<u8>, path: Seq<u8>) -> bool;

/// What `format!("{:?}", s)` gives for a string: its `Debug` form, quoted and escaped.
pub uninterp spec fn debug_string(s: Seq<char>) -> Seq<char>;

/// `fast_glob::glob_match` on the bytes of two strings. The contract claims
/// only that the result is `glob_matches` of their UTF-8 bytes.
#[verifier::external_body]
pub(crate) fn glob_match(glob: &str, path: &str) -> (r: bool)
    ensures
        r == glob_matches(encode_utf8(glob@), encode_utf8(path@)),
{
    fast_glob::glob_match(glob.as_bytes(), path.as_bytes())
}

/// `format!("{:?}", s)`. The contract claims only that the result is
/// `debug_string` of the argument.
#[verifier::external_body]
fn debug_format(s: &str) -> (r: String)
    ensures
        r@ == debug_string(s@),
{
    format!("{:?}", s)
}

/// A problem found in the configuration, and where.
pub struct Warning {
    pub key: String,
    pub message: String,
}

pub struct WarningView {
    pub key: Seq<char>,
    pub message: Seq<char>,
}

impl View for Warning {
    type V = WarningView;

    open spec fn view(&self) -> WarningView {
        WarningView { key: self.key@, message: self.message@ }
    }
}

pub open spec fn warning_views(v: Seq<Warning>) -> Seq<WarningView> {
    v.map_values(|w: Warning| w@)
}

/// The configuration of schema linting.
pub struct SchemaConfig {
    /// Rule pattern to the patterns of the objects that are exempt from the rules it matches.
    pub concessions: NameMap<Vec<String>>,
}

/// The whole configuration.
pub struct Config {
    pub schema: SchemaConfig,
}

/// The concession pattern `pattern` matches the name of some schema rule.
pub open spec fn matches_some_rule(pattern: Seq<char>) -> bool {
    exists|i: int|
        0 <= i < all_schema_rules().len() && glob_matches(
            encode_utf8(pattern),
            encode_utf8(#[trigger] all_schema_rules()[i].spec_name()),
        )
}

pub open spec fn unmatched_concession_message() -> Seq<char> {
    "Concession rule does not match any schema rules in this version of pgCrab."@
}

/// A warning for each concession pattern, in order, that matches no schema rule.
pub open spec fn concession_warnings(patterns: Seq<Seq<char>>) -> Seq<WarningView>
    decreases patterns.len(),
{
    if patterns.len() == 0 {
        seq![]
    } else {
        let earlier = concession_warnings(patterns.drop_last());
        if matches_some_rule(patterns.last()) {
            earlier
        } else {
            earlier.push(
                WarningView {
                    key: "schema.concessions."@ + debug_string(patterns.last()),
                    message: unmatched_concession_message(),
                },
            )
        }
    }
}

/// A warning for each of the first `n` concession patterns that matches no
/// schema rule (`matched[i]` false), its key made of the pattern's quoted
/// form `quoted[i]`.
pub open spec fn warnings_for(matched: Seq<bool>, quoted: Seq<Seq<char>>, n: int) -> Seq<WarningView>
    decreases n,
{
    if n <= 0 {
        seq![]
    } else {
        let earlier = warnings_for(matched, quoted, n - 1);
        if matched[n - 1] {
            earlier
        } else {
            earlier.push(
                WarningView {
                    key: "schema.concessions."@ + quoted[n - 1],
                    message: unmatched_concession_message(),
                },
            )
        }
    }
}

proof fn lemma_warnings_for(patterns: Seq<Seq<char>>, matched: Seq<bool>, quoted: Seq<Seq<char>>, n: int)
    requires
        0 <= n <= patterns.len(),
        matched.len() == patterns.len(),
        quoted.len() == patterns.len(),
        forall|i: int| 0 <= i < patterns.len() ==> #[trigger] matched[i] == matches_some_rule(patterns[i]),
        forall|i: int| 0 <= i < patterns.len() ==> #[trigger] quoted[i] == debug_string(patterns[i]),
    ensures
        warnings_for(matched, quoted, n) == concession_warnings(patterns.subrange(0, n)),
    decreases n,
{
    if n > 0 {
        lemma_warnings_for(patterns, matched, quoted, n - 1);
        assert(patterns.subrange(0, n).drop_last() =~= patterns.subrange(0, n - 1));
        assert(matched[n - 1] == matches_some_rule(patterns[n - 1]));
        assert(quoted[n - 1] == debug_string(patterns[n - 1]));
    }
}

/// The warnings for concession patterns, given for each whether it matches
/// some schema rule (`rule_matches`) and its quoted form (`quoted_patterns`):
/// one warning, in order, for each pattern that matches none.
pub fn unmatched_concession_warnings(rule_matches: &Vec<bool>, quoted_patterns: &Vec<String>) -> (out: Vec<Warning>)
    requires
        rule_matches.len() == quoted_patterns.len(),
    ensures
        warning_views(out@) == warnings_for(rule_matches@, string_views(quoted_patterns@), rule_matches@.len() as int),
{
    let ghost quoted = string_views(quoted_patterns@);
    let mut out: Vec<Warning> = Vec::new();
    let mut i: usize = 0;
    while i < rule_matches.len()
        invariant
            rule_matches.len() == quoted_patterns.len(),
            quoted == string_views(quoted_patterns@),
            i <= rule_matches.len(),
            warning_views(out@) == warnings_for(rule_matches@, quoted, i as int),
        decreases rule_matches.len() - i,
    {
        if !rule_matches[i] {
            let mut key = String::new();
            key.append("schema.concessions.");
            key.append(quoted_patterns[i].as_str());
            let ghost prev = out@;
            out.push(
                Warning {
                    key,
                    message: copy_string(
                        &String::from_str(
                            "Concession rule does not match any schema rules in this version of pgCrab.",
                        ),
                    ),
                },
            );
            assert(warning_views(out@) =~= warning_views(prev).push(out@.last()@));
        }
        i += 1;
    }
    out
}

impl SchemaConfig {
    /// An empty configuration: no concessions.
    pub fn new() -> (c: SchemaConfig)
        ensures
            c.concessions@.len() == 0,
    {
        SchemaConfig { concessions: NameMap::new() }
    }

    /// Warns of each concession whose rule pattern matches no schema rule.
    pub fn check_for_warnings(&self) -> (out: Vec<Warning>)
        ensures
            warning_views(out@) == concession_warnings(
                crate::name_map::keys_of(self.concessions@),
            ),
    {
        let ghost keys = crate::name_map::keys_of(self.concessions@);
        let rules = schema_rules();
        let mut rule_matches: Vec<bool> = Vec::new();
        let mut quoted: Vec<String> = Vec::new();
        let n = self.concessions.len();
        let mut i: usize = 0;
        while i < n
            invariant
                n == self.concessions@.len(),
                keys == crate::name_map::keys_of(self.concessions@),
                rules@ == all_schema_rules(),
                i <= n,
                rule_matches@.len() == i,
                quoted@.len() == i,
                forall|k: int| 0 <= k < i ==> #[trigger] rule_matches@[k] == matches_some_rule(keys[k]),
                forall|k: int| 0 <= k < i ==> #[trigger] quoted@[k]@ == debug_string(keys[k]),
            decreases n - i,
        {
            let pattern = self.concessions.key_at(i);
            let mut matched = false;
            let mut r: usize = 0;
            while r < rules.len() && !matched
                invariant
                    rules@ == all_schema_rules(),
                    r <= rules.len(),
                    matched ==> matches_some_rule(pattern@),
                    !matched ==> forall|j: int|
                        0 <= j < r ==> !glob_matches(
                            encode_utf8(pattern@),
                            encode_utf8(#[trigger] all_schema_rules()[j].spec_name()),
                        ),
                decreases rules.len() - r, if matched { 0int } else { 1int },
            {
                if glob_match(pattern.as_str(), rules[r].name()) {
                    matched = true;
                } else {
                    r += 1;
                }
            }
            assert(keys[i as int] == pattern@);
            rule_matches.push(matched);
            quoted.push(debug_format(pattern.as_str()));
            i += 1;
        }
        let out = unmatched_concession_warnings(&rule_matches, &quoted);
        proof {
            lemma_warnings_for(keys, rule_matches@, string_views(quoted@), n as int);
            assert(keys.subrange(0, n as int) =~= keys);
        }
        out
    }
}

impl Config {
    /// An empty configuration.
    pub fn new() -> (c: Config)
        ensures
            c.schema.concessions@.len() == 0,
    {
        Config { schema: SchemaConfig::new() }
    }

    /// Warns of the problems found in the configuration.
    pub fn check_for_warnings(&self) -> (out: Vec<Warning>)
        ensures
            warning_views(out@) == concession_warnings(
                crate::name_map::keys_of(self.schema.concessions@),
            ),
    {
        self.schema.check_for_warnings()
    }
}

/// `s` with every `.` turned into `/`, so that glob rules for `*` and `**`
/// apply to the parts of dotted object names.
pub open spec fn dots_to_slashes(s: Seq<char>) -> Seq<char> {
    s.map_values(|c: char| if c == '.' { '/' } else { c })
}

/// Some object pattern of `objects`, its dots turned into slashes, matches `location`.
pub open spec fn some_object_matches(objects: Seq<String>, location: Seq<char>) -> bool {
    exists|j: int|
        0 <= j < objects.len() && glob_matches(
            encode_utf8(dots_to_slashes(#[trigger] objects[j]@)),
            encode_utf8(location),
        )
}

/// A concession covers a diagnostic of `rule` at `location`: its rule
/// pattern matches the rule's name and one of its object patterns matches
/// the location.
pub open spec fn is_conceded(
    concessions: Seq<(Seq<char>, Seq<String>)>,
    rule: SchemaDiagnosticRule,
    location: Seq<char>,
) -> bool {
    exists|i: int|
        0 <= i < concessions.len() && glob_matches(
            encode_utf8(#[trigger] concessions[i].0),
            encode_utf8(rule.spec_name()),
        ) && some_object_matches(concessions[i].1, location)
}

/// Every object pattern of a concession is tried, wherever it stands in the
/// concession's list: where the concession's rule pattern matches the rule's
/// name and its `j`-th object pattern, dots turned into slashes, matches the
/// location, the diagnostic is conceded.
pub proof fn lemma_any_object_pattern_concedes(
    concessions: Seq<(Seq<char>, Seq<String>)>,
    rule: SchemaDiagnosticRule,
    location: Seq<char>,
    i: int,
    j: int,
)
    requires
        0 <= i < concessions.len(),
        0 <= j < concessions[i].1.len(),
        glob_matches(encode_utf8(concessions[i].0), encode_utf8(rule.spec_name())),
        glob_matches(encode_utf8(dots_to_slashes(concessions[i].1[j]@)), encode_utf8(location)),
    ensures
        is_conceded(concessions, rule, location),
{
    assert(some_object_matches(concessions[i].1, location));
}

/// A diagnostic is conceded only through some concession whose rule pattern
/// matches the rule's name and some object pattern of which matches the location.
pub proof fn lemma_conceded_only_by_a_match(
    concessions: Seq<(Seq<char>, Seq<String>)>,
    rule: SchemaDiagnosticRule,
    location: Seq<char>,
)
    requires
        is_conceded(concessions, rule, location),
    ensures
        exists|i: int, j: int|
            0 <= i < concessions.len() && 0 <= j < concessions[i].1.len() && glob_matches(
                encode_utf8(#[trigger] concessions[i].0),
                encode_utf8(rule.spec_name()),
            ) && glob_matches(encode_utf8(dots_to_slashes(#[trigger] concessions[i].1[j]@)), encode_utf8(location)),
{
    let i = choose|i: int|
        0 <= i < concessions.len() && glob_matches(
            encode_utf8(#[trigger] concessions[i].0),
            encode_utf8(rule.spec_name()),
        ) && some_object_matches(concessions[i].1, location);
    let j = choose|j: int|
        0 <= j < concessions[i].1.len() && glob_matches(
            encode_utf8(dots_to_slashes(#[trigger] concessions[i].1[j]@)),
            encode_utf8(location),
        );
    assert(glob_matches(encode_utf8(concessions[i].0), encode_utf8(rule.spec_name())));
    assert(glob_matches(encode_utf8(dots_to_slashes(concessions[i].1[j]@)), encode_utf8(location)));
}

fn dots_to_slashes_string(s: &str) -> (r: String)
    ensures
        r@ == dots_to_slashes(s@),
{
    let chars = chars_of(s);
    let mut r = String::new();
    let mut i: usize = 0;
    while i < chars.len()
        invariant
            chars@ == s@,
            i <= chars.len(),
            r@ == dots_to_slashes(s@.take(i as int)),
        decreases chars.len() - i,
    {
        let c = chars[i];
        push_char(&mut r, if c == '.' { '/' } else { c });
        assert(s@.take(i + 1) =~= s@.take(i as int).push(c));
        assert(r@ =~= dots_to_slashes(s@.take(i + 1)));
        i += 1;
    }
    assert(s@.take(i as int) =~= s@);
    r
}

impl SchemaConfig {
    /// Whether a concession of the configuration covers a diagnostic of
    /// `rule` on the object whose location, written with `/` between its
    /// parts, is `location`: such a diagnostic is not reported.
    pub fn concedes(&self, rule: SchemaDiagnosticRule, location: &str) -> (b: bool)
        ensures
            b == is_conceded(self.concessions@, rule, location@),
    {
        let ghost cs = self.concessions@;
        let n = self.concessions.len();
        let mut i: usize = 0;
        while i < n
            invariant
                n == cs.len(),
                cs == self.concessions@,
                i <= n,
                forall|k: int|
                    0 <= k < i ==> !(glob_matches(encode_utf8(#[trigger] cs[k].0), encode_utf8(rule.spec_name()))
                        && some_object_matches(cs[k].1, location@)),
            decreases n - i,
        {
            let pattern = self.concessions.key_at(i);
            let objects = self.concessions.value_at(i);
            if glob_match(pattern.as_str(), rule.name()) {
                let mut j: usize = 0;
                while j < objects.len()
                    invariant
                        i < n,
                        n == cs.len(),
                        cs == self.concessions@,
                        objects@ == cs[i as int].1,
                        glob_matches(encode_utf8(cs[i as int].0), encode_utf8(rule.spec_name())),
                        j <= objects.len(),
                        forall|k: int|
                            0 <= k < j ==> !glob_matches(
                                encode_utf8(dots_to_slashes(#[trigger] objects@[k]@)),
                                encode_utf8(location@),
                            ),
                    decreases objects.len() - j,
                {
                    let converted = dots_to_slashes_string(objects[j].as_str());
                    if glob_match(converted.as_str(), location) {
                        assert(glob_matches(encode_utf8(dots_to_slashes(objects@[j as int]@)), encode_utf8(location@)));
                        assert(some_object_matches(cs[i as int].1, location@));
                        return true;
                    }
                    j += 1;
                }
            }
            i += 1;
        }
        false
    }
}

} // verus!
