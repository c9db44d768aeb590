//! Named projects (Meilisearch instances) and the default among them.
use vstd::prelude::*;

use crate::text::{str_eq, compare_text, lemma_lex_transitive, lemma_lex_trichotomy, lex_lt, TextOrder};

verus! {

/// Connection settings of one Meilisearch instance.
#[derive(Debug, PartialEq)]
pub struct Project {
    /// `"local"` for the instance that the CLI manages itself.
    pub project_type: Option<String>,
    pub url: String,
    pub api_key: Option<String>,
    pub data_dir: Option<String>,
    pub binary: Option<String>,
}

/// Projects by name, kept in ascending name order with each name once.
#[derive(Debug, PartialEq)]
pub struct ProjectMap {
    entries: Vec<(String, Project)>,
}

/// The configuration file's contents: the projects and the default one.
#[derive(Clone, Debug, PartialEq)]
pub struct Config {
    pub default: String,
    pub projects: ProjectMap,
}

/// A copy of an optional string.
fn clone_opt(o: &Option<String>) -> (r: Option<String>)
    ensures
        r == *o,
{
    match o {
        Some(s) => Some(s.clone()),
        None => None,
    }
}

impl Clone for Project {
    fn clone(&self) -> (r: Project)
        ensures
            r == *self,
    {
        Project {
            project_type: clone_opt(&self.project_type),
            url: self.url.clone(),
            api_key: clone_opt(&self.api_key),
            data_dir: clone_opt(&self.data_dir),
            binary: clone_opt(&self.binary),
        }
    }
}

impl Clone for ProjectMap {
    fn clone(&self) -> (r: ProjectMap)
        ensures
            r@ == self@,
            r.names() == self.names(),
    {
        proof {
            use_type_invariant(self);
        }
        let mut entries: Vec<(String, Project)> = Vec::new();
        let mut i: usize = 0;
        while i < self.entries.len()
            invariant
                i <= self.entries@.len(),
                entries@ == self.entries@.subrange(0, i as int),
                entries_sorted(self.entries@),
            decreases self.entries@.len() - i,
        {
            let name = self.entries[i].0.clone();
            let project = self.entries[i].1.clone();
            entries.push((name, project));
            i = i + 1;
            assert(entries@ =~= self.entries@.subrange(0, i as int));
        }
        assert(entries@ =~= self.entries@);
        ProjectMap { entries }
    }
}

/// Why a change to the configuration, or a project lookup, was refused.
#[derive(PartialEq, Eq, Structural, Clone, Copy, Debug)]
pub enum ConfigErrorKind {
    /// A project was asked for by name (or as the default) and does not exist.
    UnknownProject,
    /// A project of that name exists already.
    AlreadyExists,
    /// The default project cannot be removed.
    RemovingDefault,
    /// There is no project of that name to remove or to make the default.
    NotFound,
}

/// A refusal together with the project name it is about.
#[derive(Clone, Debug, PartialEq)]
pub struct ConfigError {
    pub kind: ConfigErrorKind,
    pub name: String,
}

pub open spec fn entries_sorted(e: Seq<(String, Project)>) -> bool {
    forall|i: int, j: int| 0 <= i < j < e.len() ==> lex_lt(#[trigger] e[i].0@, #[trigger] e[j].0@)
}

pub open spec fn entries_map(e: Seq<(String, Project)>) -> Map<Seq<char>, Project> {
    Map::new(
        |k: Seq<char>| exists|i: int| 0 <= i < e.len() && #[trigger] e[i].0@ == k,
        |k: Seq<char>| e[choose|i: int| 0 <= i < e.len() && #[trigger] e[i].0@ == k].1,
    )
}

impl View for ProjectMap {
    type V = Map<Seq<char>, Project>;

    closed spec fn view(&self) -> Map<Seq<char>, Project> {
        entries_map(self.entries@)
    }
}

/// In a sorted entry list, the entry at `i` is the one the map gives for its name.
proof fn lemma_entry_in_map(e: Seq<(String, Project)>, i: int)
    requires
        entries_sorted(e),
        0 <= i < e.len(),
    ensures
        entries_map(e).contains_key(e[i].0@),
        entries_map(e)[e[i].0@] == e[i].1,
{
    let k = e[i].0@;
    assert(exists|j: int| 0 <= j < e.len() && #[trigger] e[j].0@ == k);
    let j = choose|j: int| 0 <= j < e.len() && #[trigger] e[j].0@ == k;
    lemma_lex_trichotomy(k, k);
    if j < i {
        assert(lex_lt(e[j].0@, e[i].0@));
    } else if j > i {
        assert(lex_lt(e[i].0@, e[j].0@));
    }
}

impl ProjectMap {
    /// Names ascending, each once.
    #[verifier::type_invariant]
    spec fn wf(&self) -> bool {
        entries_sorted(self.entries@)
    }

    /// The names in ascending order.
    pub closed spec fn names(&self) -> Seq<Seq<char>> {
        self.entries@.map_values(|e: (String, Project)| e.0@)
    }

    /// An empty map.
    pub fn new() -> (r: ProjectMap)
        ensures
            r@ == Map::<Seq<char>, Project>::empty(),
            r.names().len() == 0,
    {
        let r = ProjectMap { entries: Vec::new() };
        assert(r@ =~= Map::<Seq<char>, Project>::empty());
        r
    }

    /// The number of projects.
    pub fn len(&self) -> (n: usize)
        ensures
            n == self@.len(),
            n == self.names().len(),
    {
        proof {
            use_type_invariant(self);
        }
        proof {
            self.lemma_len();
        }
        self.entries.len()
    }

    proof fn lemma_len(&self)
        requires
            self.wf(),
        ensures
            self@.len() == self.entries@.len(),
            self@.dom().finite(),
    {
        let e = self.entries@;
        let names = self.names();
        assert forall|i: int, j: int| 0 <= i < j < names.len() implies names[i] != names[j] by {
            lemma_lex_trichotomy(e[i].0@, e[i].0@);
        }
        assert(names.no_duplicates());
        assert(self@.dom() =~= names.to_set()) by {
            assert forall|k: Seq<char>| self@.dom().contains(k) implies names.to_set().contains(
                k,
            ) by {
                let i = choose|i: int| 0 <= i < e.len() && #[trigger] e[i].0@ == k;
                assert(names[i] == k);
            }
            assert forall|k: Seq<char>| names.to_set().contains(k) implies self@.dom().contains(
                k,
            ) by {
                let i = choose|i: int| 0 <= i < names.len() && names[i] == k;
                assert(e[i].0@ == k);
            }
        }
        names.unique_seq_to_set();
    }

    /// The position of `name`, or of the first greater name.
    fn locate(&self, name: &str) -> (r: (usize, bool))
        ensures
            r.0 <= self.entries@.len(),
            forall|j: int| 0 <= j < r.0 ==> lex_lt(#[trigger] self.entries@[j].0@, name@),
            r.1 ==> r.0 < self.entries@.len() && self.entries@[r.0 as int].0@ == name@,
            !r.1 ==> forall|j: int|
                r.0 <= j < self.entries@.len() ==> lex_lt(name@, #[trigger] self.entries@[j].0@),
    {
        proof {
            use_type_invariant(self);
        }
        let n = self.entries.len();
        let mut i: usize = 0;
        while i < n
            invariant
                n == self.entries@.len(),
                self.wf(),
                i <= n,
                forall|j: int| 0 <= j < i ==> lex_lt(#[trigger] self.entries@[j].0@, name@),
            decreases n - i,
        {
            match compare_text(self.entries[i].0.as_str(), name) {
                TextOrder::Less => {
                    i = i + 1;
                },
                TextOrder::Equal => {
                    return (i, true);
                },
                TextOrder::Greater => {
                    assert forall|j: int| i <= j < n implies lex_lt(
                        name@,
                        #[trigger] self.entries@[j].0@,
                    ) by {
                        if j > i {
                            lemma_lex_transitive(
                                name@,
                                self.entries@[i as int].0@,
                                self.entries@[j].0@,
                            );
                        }
                    }
                    return (i, false);
                },
            }
        }
        (i, false)
    }

    /// Whether a project of that name exists.
    pub fn contains_key(&self, name: &str) -> (r: bool)
        ensures
            r == self@.contains_key(name@),
    {
        proof {
            use_type_invariant(self);
        }
        let (i, found) = self.locate(name);
        proof {
            if found {
                lemma_entry_in_map(self.entries@, i as int);
            } else {
                self.lemma_absent(name@, i as int);
            }
        }
        found
    }

    proof fn lemma_absent(&self, k: Seq<char>, i: int)
        requires
            self.wf(),
            0 <= i <= self.entries@.len(),
            forall|j: int| 0 <= j < i ==> lex_lt(#[trigger] self.entries@[j].0@, k),
            forall|j: int| i <= j < self.entries@.len() ==> lex_lt(k, #[trigger] self.entries@[j].0@),
        ensures
            !self@.contains_key(k),
    {
        if self@.contains_key(k) {
            let j = choose|j: int| 0 <= j < self.entries@.len() && #[trigger] self.entries@[j].0@ == k;
            lemma_lex_trichotomy(k, k);
            if j < i {
                assert(lex_lt(self.entries@[j].0@, k));
            } else {
                assert(lex_lt(k, self.entries@[j].0@));
            }
        }
    }

    /// The project of that name.
    pub fn get(&self, name: &str) -> (r: Option<&Project>)
        ensures
            match r {
                Some(p) => self@.contains_key(name@) && self@[name@] == *p,
                None => !self@.contains_key(name@),
            },
    {
        proof {
            use_type_invariant(self);
        }
        let (i, found) = self.locate(name);
        if found {
            proof {
                lemma_entry_in_map(self.entries@, i as int);
            }
            Some(&self.entries[i].1)
        } else {
            proof {
                self.lemma_absent(name@, i as int);
            }
            None
        }
    }

    /// The `i`-th project in ascending name order.
    pub fn entry(&self, i: usize) -> (r: (&String, &Project))
        requires
            i < self.names().len(),
        ensures
            r.0@ == self.names()[i as int],
            self@.contains_key(r.0@),
            self@[r.0@] == *r.1,
    {
        proof {
            use_type_invariant(self);
        }
        proof {
            lemma_entry_in_map(self.entries@, i as int);
        }
        (&self.entries[i].0, &self.entries[i].1)
    }

    /// Sets the project of that name, returning the one it replaces.
    pub fn insert(&mut self, name: String, project: Project) -> (r: Option<Project>)
        ensures
            final(self)@ == old(self)@.insert(name@, project),
            match r {
                Some(p) => old(self)@.contains_key(name@) && old(self)@[name@] == p,
                None => !old(self)@.contains_key(name@),
            },
    {
        proof {
            use_type_invariant(&*self);
        }
        let ghost k = name@;
        let (i, found) = self.locate(name.as_str());
        let ghost old_e = self.entries@;
        proof {
            if !found {
                self.lemma_absent(k, i as int);
            }
        }
        let mut entries: Vec<(String, Project)> = Vec::new();
        std::mem::swap(&mut entries, &mut self.entries);
        if found {
            proof {
                lemma_entry_in_map(old_e, i as int);
            }
            let (_old_name, old_project) = entries.remove(i);
            entries.insert(i, (name, project));
            let ghost e = entries@;
            assert(e =~= old_e.update(i as int, (e[i as int].0, project)));
            assert(entries_sorted(e)) by {
                assert forall|a: int, b: int| 0 <= a < b < e.len() implies lex_lt(
                    #[trigger] e[a].0@,
                    #[trigger] e[b].0@,
                ) by {
                    assert(old_e[a].0@ == e[a].0@ || a == i);
                    assert(old_e[b].0@ == e[b].0@ || b == i);
                }
            }
            self.entries = entries;
            proof {
                self.lemma_map_update(old_e, i as int, k, project);
            }
            Some(old_project)
        } else {
            entries.insert(i, (name, project));
            let ghost e = entries@;
            assert(entries_sorted(e)) by {
                assert forall|a: int, b: int| 0 <= a < b < e.len() implies lex_lt(
                    #[trigger] e[a].0@,
                    #[trigger] e[b].0@,
                ) by {
                    if a < i && b > i {
                        assert(e[a] == old_e[a] && e[b] == old_e[b - 1]);
                    } else if a < i && b == i {
                    } else if a == i {
                        assert(e[b] == old_e[b - 1]);
                    } else if b < i {
                        assert(e[a] == old_e[a] && e[b] == old_e[b]);
                    } else {
                        assert(e[a] == old_e[a - 1] && e[b] == old_e[b - 1]);
                    }
                }
            }
            self.entries = entries;
            proof {
                self.lemma_map_insert_new(old_e, i as int, k, project);
            }
            None
        }
    }

    proof fn lemma_map_update(
        &self,
        old_e: Seq<(String, Project)>,
        i: int,
        k: Seq<char>,
        p: Project,
    )
        requires
            entries_sorted(old_e),
            entries_sorted(self.entries@),
            0 <= i < old_e.len(),
            old_e[i].0@ == k,
            self.entries@.len() == old_e.len(),
            self.entries@[i].0@ == k,
            self.entries@[i].1 == p,
            forall|j: int| 0 <= j < old_e.len() && j != i ==> self.entries@[j] == old_e[j],
        ensures
            self@ == entries_map(old_e).insert(k, p),
    {
        let e = self.entries@;
        let m = entries_map(old_e).insert(k, p);
        assert forall|key: Seq<char>| #[trigger] self@.contains_key(key) <==> m.contains_key(key) by {
            if self@.contains_key(key) {
                let j = choose|j: int| 0 <= j < e.len() && #[trigger] e[j].0@ == key;
                if j != i {
                    assert(old_e[j].0@ == key);
                }
            }
            if m.contains_key(key) && key != k {
                let j = choose|j: int| 0 <= j < old_e.len() && #[trigger] old_e[j].0@ == key;
                assert(e[j].0@ == key);
            }
        }
        assert forall|key: Seq<char>| #[trigger] self@.contains_key(key) implies self@[key]
            == m[key] by {
            let j = choose|j: int| 0 <= j < e.len() && #[trigger] e[j].0@ == key;
            if key == k {
                lemma_entry_in_map(e, i);
            } else {
                lemma_entry_in_map(e, j);
                assert(old_e[j] == e[j]);
                lemma_entry_in_map(old_e, j);
            }
        }
        assert(self@ =~= m);
    }

    proof fn lemma_map_insert_new(
        &self,
        old_e: Seq<(String, Project)>,
        i: int,
        k: Seq<char>,
        p: Project,
    )
        requires
            entries_sorted(old_e),
            entries_sorted(self.entries@),
            0 <= i <= old_e.len(),
            self.entries@.len() == old_e.len() + 1,
            self.entries@[i].0@ == k,
            self.entries@[i].1 == p,
            forall|j: int| 0 <= j < i ==> self.entries@[j] == old_e[j],
            forall|j: int| i < j < self.entries@.len() ==> self.entries@[j] == old_e[j - 1],
        ensures
            self@ == entries_map(old_e).insert(k, p),
    {
        let e = self.entries@;
        let m = entries_map(old_e).insert(k, p);
        assert forall|key: Seq<char>| #[trigger] self@.contains_key(key) <==> m.contains_key(key) by {
            if self@.contains_key(key) {
                let j = choose|j: int| 0 <= j < e.len() && #[trigger] e[j].0@ == key;
                if j < i {
                    assert(old_e[j].0@ == key);
                } else if j > i {
                    assert(old_e[j - 1].0@ == key);
                }
            }
            if m.contains_key(key) && key != k {
                let j = choose|j: int| 0 <= j < old_e.len() && #[trigger] old_e[j].0@ == key;
                if j < i {
                    assert(e[j].0@ == key);
                } else {
                    assert(e[j + 1].0@ == key);
                }
            }
        }
        assert forall|key: Seq<char>| #[trigger] self@.contains_key(key) implies self@[key]
            == m[key] by {
            let j = choose|j: int| 0 <= j < e.len() && #[trigger] e[j].0@ == key;
            if key == k {
                lemma_entry_in_map(e, i);
            } else {
                lemma_entry_in_map(e, j);
                if j < i {
                    lemma_entry_in_map(old_e, j);
                } else {
                    lemma_entry_in_map(old_e, j - 1);
                }
            }
        }
        assert(self@ =~= m);
    }

    /// Removes the project of that name, returning it.
    pub fn remove(&mut self, name: &str) -> (r: Option<Project>)
        ensures
            final(self)@ == old(self)@.remove(name@),
            match r {
                Some(p) => old(self)@.contains_key(name@) && old(self)@[name@] == p,
                None => !old(self)@.contains_key(name@),
            },
    {
        proof {
            use_type_invariant(&*self);
        }
        let (i, found) = self.locate(name);
        let ghost old_e = self.entries@;
        let mut entries: Vec<(String, Project)> = Vec::new();
        std::mem::swap(&mut entries, &mut self.entries);
        if found {
            proof {
                lemma_entry_in_map(old_e, i as int);
            }
            let (_n, project) = entries.remove(i);
            let ghost e = entries@;
            assert(entries_sorted(e)) by {
                assert forall|a: int, b: int| 0 <= a < b < e.len() implies lex_lt(
                    #[trigger] e[a].0@,
                    #[trigger] e[b].0@,
                ) by {
                    if b < i {
                        assert(e[a] == old_e[a] && e[b] == old_e[b]);
                    } else if a < i {
                        assert(e[a] == old_e[a] && e[b] == old_e[b + 1]);
                    } else {
                        assert(e[a] == old_e[a + 1] && e[b] == old_e[b + 1]);
                    }
                }
            }
            self.entries = entries;
            proof {
                let m = entries_map(old_e).remove(name@);
                assert forall|key: Seq<char>| #[trigger] self@.contains_key(key) <==> m.contains_key(
                    key,
                ) by {
                    if self@.contains_key(key) {
                        let j = choose|j: int| 0 <= j < e.len() && #[trigger] e[j].0@ == key;
                        if j < i {
                            assert(old_e[j].0@ == key);
                            lemma_lex_trichotomy(key, key);
                        } else {
                            assert(old_e[j + 1].0@ == key);
                            lemma_lex_trichotomy(key, key);
                        }
                    }
                    if m.contains_key(key) {
                        let j = choose|j: int| 0 <= j < old_e.len() && #[trigger] old_e[j].0@ == key;
                        if j < i {
                            assert(e[j].0@ == key);
                        } else {
                            assert(j != i);
                            assert(e[j - 1].0@ == key);
                        }
                    }
                }
                assert forall|key: Seq<char>| #[trigger] self@.contains_key(key) implies self@[key]
                    == m[key] by {
                    let j = choose|j: int| 0 <= j < e.len() && #[trigger] e[j].0@ == key;
                    lemma_entry_in_map(e, j);
                    if j < i {
                        lemma_entry_in_map(old_e, j);
                    } else {
                        lemma_entry_in_map(old_e, j + 1);
                    }
                }
                assert(self@ =~= m);
            }
            Some(project)
        } else {
            self.entries = entries;
            proof {
                self.lemma_absent(name@, i as int);
                assert(self@ =~= old(self)@.remove(name@));
            }
            None
        }
    }
}

/// The project a lookup asks for: the given name, or else the default.
pub open spec fn requested_name(config: &Config, name: Option<&str>) -> Seq<char> {
    match name {
        Some(n) => n@,
        None => config.default@,
    }
}

/// The text of a configuration error, as it is shown to the user.
pub open spec fn config_error_text(kind: ConfigErrorKind, name: Seq<char>) -> Seq<char> {
    match kind {
        ConfigErrorKind::UnknownProject => "Project '"@ + name
            + "' not found. Run `msc project list` to see available projects."@,
        ConfigErrorKind::AlreadyExists => "Project '"@ + name + "' already exists. Remove it first."@,
        ConfigErrorKind::RemovingDefault => "Cannot remove the default project '"@ + name
            + "'. Set a different default first."@,
        ConfigErrorKind::NotFound => "Project '"@ + name + "' not found."@,
    }
}

impl ConfigError {
    /// The message shown to the user.
    pub fn message(&self) -> (r: String)
        ensures
            r@ == config_error_text(self.kind, self.name@),
    {
        let (before, after) = match self.kind {
            ConfigErrorKind::UnknownProject => (
                "Project '",
                "' not found. Run `msc project list` to see available projects.",
            ),
            ConfigErrorKind::AlreadyExists => ("Project '", "' already exists. Remove it first."),
            ConfigErrorKind::RemovingDefault => (
                "Cannot remove the default project '",
                "'. Set a different default first.",
            ),
            ConfigErrorKind::NotFound => ("Project '", "' not found."),
        };
        let mut r = String::from_str(before);
        r.append(self.name.as_str());
        r.append(after);
        r
    }
}

/// The project that the configuration starts with: a local instance.
pub open spec fn is_initial_local_project(p: Project) -> bool {
    &&& p.project_type matches Some(t) && t@ == "local"@
    &&& p.url@ == "http://127.0.0.1:7700"@
    &&& p.api_key is None
    &&& p.data_dir matches Some(d) && d@ == "~/.local/share/meilisearch/local"@
    &&& p.binary matches Some(b) && b@ == "~/.local/share/meilisearch/bin/meilisearch-server"@
}

impl Config {
    /// The default names one of the projects.
    pub open spec fn consistent(&self) -> bool {
        self.projects@.contains_key(self.default@)
    }

    /// The project named `name`, or the default project when no name is given.
    pub fn get_project<'a>(&'a self, name: Option<&'a str>) -> (r: Result<
        (&'a str, &'a Project),
        ConfigError,
    >)
        ensures
            match r {
                Ok((n, p)) => {
                    &&& n@ == requested_name(self, name)
                    &&& self.projects@.contains_key(n@)
                    &&& self.projects@[n@] == *p
                },
                Err(e) => {
                    &&& !self.projects@.contains_key(requested_name(self, name))
                    &&& e.kind == ConfigErrorKind::UnknownProject
                    &&& e.name@ == requested_name(self, name)
                },
            },
    {
        let n: &str = match name {
            Some(n) => n,
            None => self.default.as_str(),
        };
        match self.projects.get(n) {
            Some(p) => Ok((n, p)),
            None => Err(ConfigError { kind: ConfigErrorKind::UnknownProject, name: String::from_str(n) }),
        }
    }

    /// Adds a project under a name that is not taken yet.
    pub fn add_project(&mut self, name: String, project: Project) -> (r: Result<(), ConfigError>)
        ensures
            final(self).default == old(self).default,
            r is Ok <==> !old(self).projects@.contains_key(name@),
            r is Ok ==> final(self).projects@ == old(self).projects@.insert(name@, project),
            r matches Err(e) ==> {
                &&& e.kind == ConfigErrorKind::AlreadyExists
                &&& e.name@ == name@
                &&& final(self).projects@ == old(self).projects@
            },
    {
        if self.projects.contains_key(name.as_str()) {
            return Err(ConfigError { kind: ConfigErrorKind::AlreadyExists, name });
        }
        self.projects.insert(name, project);
        Ok(())
    }

    /// Removes a project; the default project cannot be removed.
    pub fn remove_project(&mut self, name: &str) -> (r: Result<(), ConfigError>)
        ensures
            final(self).default == old(self).default,
            r is Ok <==> (name@ != old(self).default@ && old(self).projects@.contains_key(name@)),
            r is Ok ==> final(self).projects@ == old(self).projects@.remove(name@),
            r matches Err(e) ==> {
                &&& e.name@ == name@
                &&& e.kind == (if name@ == old(self).default@ {
                    ConfigErrorKind::RemovingDefault
                } else {
                    ConfigErrorKind::NotFound
                })
                &&& final(self).projects@ == old(self).projects@
            },
    {
        if str_eq(name, self.default.as_str()) {
            return Err(ConfigError { kind: ConfigErrorKind::RemovingDefault, name: String::from_str(name) });
        }
        match self.projects.remove(name) {
            Some(_) => Ok(()),
            None => {
                proof {
                    assert(old(self).projects@.remove(name@) =~= old(self).projects@);
                }
                Err(ConfigError { kind: ConfigErrorKind::NotFound, name: String::from_str(name) })
            },
        }
    }

    /// Makes an existing project the default one.
    pub fn set_default(&mut self, name: &str) -> (r: Result<(), ConfigError>)
        ensures
            final(self).projects@ == old(self).projects@,
            r is Ok <==> old(self).projects@.contains_key(name@),
            r is Ok ==> final(self).default@ == name@,
            r matches Err(e) ==> {
                &&& e.kind == ConfigErrorKind::NotFound
                &&& e.name@ == name@
                &&& final(self).default == old(self).default
            },
    {
        if !self.projects.contains_key(name) {
            return Err(ConfigError { kind: ConfigErrorKind::NotFound, name: String::from_str(name) });
        }
        self.default = String::from_str(name);
        Ok(())
    }
}

impl Default for Config {
    /// A configuration with one project, `local`, which is the default.
    fn default() -> (r: Config)
        ensures
            r.default@ == "local"@,
            r.projects@.dom() == set!["local"@],
            is_initial_local_project(r.projects@["local"@]),
            r.consistent(),
    {
        let mut projects = ProjectMap::new();
        let local = Project {
            project_type: Some(String::from_str("local")),
            url: String::from_str("http://127.0.0.1:7700"),
            api_key: None,
            data_dir: Some(String::from_str("~/.local/share/meilisearch/local")),
            binary: Some(String::from_str("~/.local/share/meilisearch/bin/meilisearch-server")),
        };
        projects.insert(String::from_str("local"), local);
        let r = Config { default: String::from_str("local"), projects };
        assert(r.projects@.dom() =~= set!["local"@]);
        r
    }
}

/// A project that was just added is found under its name, and every other
/// lookup gives what it gave before.
pub proof fn law_added_project_is_found(before: Config, after: Config, name: Seq<char>, p: Project)
    requires
        after.projects@ == before.projects@.insert(name, p),
    ensures
        after.projects@.contains_key(name),
        after.projects@[name] == p,
        forall|other: Seq<char>|
            other != name ==> (after.projects@.contains_key(other) == before.projects@.contains_key(
                other,
            ) && after.projects@[other] == before.projects@[other]),
{
}

/// A project that was just removed is no longer found, and every other
/// lookup gives what it gave before.
pub proof fn law_removed_project_is_gone(before: Config, after: Config, name: Seq<char>)
    requires
        after.projects@ == before.projects@.remove(name),
    ensures
        !after.projects@.contains_key(name),
        forall|other: Seq<char>|
            other != name ==> (after.projects@.contains_key(other) == before.projects@.contains_key(
                other,
            ) && after.projects@[other] == before.projects@[other]),
{
}

/// Every change that the configuration accepts keeps it consistent: the
/// default always names an existing project.
pub proof fn law_changes_keep_default_valid(before: Config, after: Config, name: Seq<char>, p: Project)
    requires
        before.consistent(),
        ({
            ||| (after.default == before.default && after.projects@ == before.projects@.insert(
                name,
                p,
            ))
            ||| (after.default == before.default && name != before.default@
                && after.projects@ == before.projects@.remove(name))
            ||| (after.projects@ == before.projects@ && before.projects@.contains_key(name)
                && after.default@ == name)
        }),
    ensures
        after.consistent(),
{
}

/// Once a project is made the default, commands that name no project use it.
pub proof fn law_default_is_used(before: Config, after: Config, name: Seq<char>)
    requires
        before.projects@.contains_key(name),
        after.projects@ == before.projects@,
        after.default@ == name,
    ensures
        requested_name(&after, None) == name,
        after.projects@.contains_key(requested_name(&after, None)),
        after.projects@[requested_name(&after, None)] == before.projects@[name],
{
}

/// The line `project list` prints for a project.
pub open spec fn project_line_text(name: Seq<char>, p: Project, is_default: bool) -> Seq<char> {
    "  "@ + name + (if is_default {
        " (default)"@
    } else {
        Seq::empty()
    }) + " — "@ + p.url@ + if p.api_key is Some {
        " [api key set]"@
    } else {
        Seq::empty()
    }
}

impl Config {
    /// The lines `project list` prints: one per project, in name order,
    /// marking the default one and the ones with an API key.
    pub fn project_list_lines(&self) -> (r: Vec<String>)
        ensures
            r@.len() == self.projects.names().len(),
            forall|i: int|
                0 <= i < r@.len() ==> (#[trigger] r@[i])@ == project_line_text(
                    self.projects.names()[i],
                    self.projects@[self.projects.names()[i]],
                    self.projects.names()[i] == self.default@,
                ),
    {
        let mut out: Vec<String> = Vec::new();
        let n = self.projects.len();
        let mut i: usize = 0;
        while i < n
            invariant
                    n == self.projects.names().len(),
                i <= n,
                out@.len() == i,
                forall|k: int|
                    0 <= k < i ==> (#[trigger] out@[k])@ == project_line_text(
                        self.projects.names()[k],
                        self.projects@[self.projects.names()[k]],
                        self.projects.names()[k] == self.default@,
                    ),
            decreases n - i,
        {
            let (name, project) = self.projects.entry(i);
            let mut line = String::from_str("  ");
            line.append(name.as_str());
            if str_eq(name.as_str(), self.default.as_str()) {
                line.append(" (default)");
            } else {
                proof {
                    reveal_strlit("");
                }
            }
            line.append(" — ");
            line.append(project.url.as_str());
            if project.api_key.is_some() {
                line.append(" [api key set]");
            }
            proof {
                reveal_strlit("");
            }
            assert(line@ =~= project_line_text(name@, *project, name@ == self.default@));
            out.push(line);
            i = i + 1;
        }
        out
    }
}

/// The line `project current` prints.
pub fn current_project_line(name: &str, project: &Project) -> (r: String)
    ensures
        r@ == name@ + " — "@ + project.url@,
{
    let mut r = String::from_str(name);
    r.append(" — ");
    r.append(project.url.as_str());
    r
}

/// A project added by hand: a remote instance at `url`.
pub fn remote_project(url: String, api_key: Option<String>) -> (r: Project)
    ensures
        r == (Project { project_type: None, url, api_key, data_dir: None, binary: None }),
{
    Project { project_type: None, url, api_key, data_dir: None, binary: None }
}

/// The API key typed at the prompt: none when left empty.
pub fn entered_api_key(typed: String) -> (r: Option<String>)
    ensures
        typed@.len() == 0 ==> r is None,
        typed@.len() > 0 ==> r == Some(typed),
{
    if typed.as_str().is_empty() {
        None
    } else {
        Some(typed)
    }
}

} // verus!
