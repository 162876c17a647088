//! Artifact identities and the project that declares them.
use vstd::prelude::*;

use crate::text::{dots_to_slashes, ends_with_text, joined, slashed};

verus! {

/// The repository-relative directory of an artifact: the group with its dots
/// turned into slashes, then the name, then the version.
pub open spec fn artifact_path(group: Seq<char>, name: Seq<char>, version: Seq<char>) -> Seq<char> {
    slashed(group) + "/"@ + name + "/"@ + version
}

/// The identifier of any released bundle (jar, war etc.), as in Maven.
#[derive(Debug)]
pub struct Artifact {
    pub group: String,
    pub name: String,
    pub version: String,
    pub path: String,
}

impl Artifact {
    /// The path is derived from the other three fields.
    pub open spec fn wf(&self) -> bool {
        self.path@ == artifact_path(self.group@, self.name@, self.version@)
    }

    pub open spec fn spec_is_snapshot(&self) -> bool {
        "-SNAPSHOT"@.is_suffix_of(self.version@)
    }

    pub fn new(group: &str, name: &str, version: &str) -> (r: Artifact)
        ensures
            r.group@ == group@,
            r.name@ == name@,
            r.version@ == version@,
            r.path@ == artifact_path(group@, name@, version@),
            r.wf(),
    {
        let path = dots_to_slashes(group);
        let path = joined(path.as_str(), "/");
        let path = joined(path.as_str(), name);
        let path = joined(path.as_str(), "/");
        let path = joined(path.as_str(), version);
        Artifact { group: group.to_owned(), name: name.to_owned(), version: version.to_owned(), path }
    }

    pub fn is_snapshot(&self) -> (r: bool)
        ensures
            r == self.spec_is_snapshot(),
    {
        ends_with_text(self.version.as_str(), "-SNAPSHOT")
    }

    /// An artifact with the same coordinates and path.
    pub fn copied(&self) -> (r: Artifact)
        ensures
            r == *self,
    {
        Artifact {
            group: self.group.clone(),
            name: self.name.clone(),
            version: self.version.clone(),
            path: self.path.clone(),
        }
    }

    /// The artifact of a manifest entry `group:name = "version"`, where
    /// `version` is the entry's value as the manifest renders it, quotes included.
    pub fn from_table_entry(name_group: &str, version: String) -> (r: Result<Artifact, ProjectError>)
        requires
            well_formed_entry(name_group@) ==> version@.len() >= 2,
        ensures
            r is Ok <==> well_formed_entry(name_group@),
            r matches Ok(a) ==> {
                &&& a.wf()
                &&& a.group@ == entry_group(name_group@)
                &&& a.name@ == entry_name(name_group@)
                &&& a.version@ == version@.subrange(1, version@.len() - 1)
            },
            r matches Err(ProjectError::MalformedDependency { entry }) ==> entry@ == name_group@,
    {
        match colon_position(name_group) {
            None => Err(ProjectError::MalformedDependency { entry: name_group.to_owned() }),
            Some(i) => {
                let n = name_group.unicode_len();
                let group = name_group.substring_char(0, i);
                let name = name_group.substring_char(i + 1, n);
                let version = strip_first_last(version);
                Ok(Artifact::new(group, name, version.as_str()))
            },
        }
    }
}

/// The manifest names an artifact `group:name`, with exactly one colon.
pub open spec fn well_formed_entry(s: Seq<char>) -> bool {
    exists|i: int| 0 <= i < s.len() && s[i] == ':' && is_sole_colon(s, i)
}

pub open spec fn is_sole_colon(s: Seq<char>, i: int) -> bool {
    forall|j: int| 0 <= j < s.len() && j != i ==> s[j] != ':'
}

pub open spec fn colon_index(s: Seq<char>) -> int {
    choose|i: int| 0 <= i < s.len() && s[i] == ':' && is_sole_colon(s, i)
}

pub open spec fn entry_group(s: Seq<char>) -> Seq<char> {
    s.subrange(0, colon_index(s))
}

pub open spec fn entry_name(s: Seq<char>) -> Seq<char> {
    s.subrange(colon_index(s) + 1, s.len() as int)
}

/// The place of the only colon in `s`, if it holds exactly one.
fn colon_position(s: &str) -> (r: Option<usize>)
    ensures
        r is Some <==> well_formed_entry(s@),
        r matches Some(i) ==> i == colon_index(s@) && i < s@.len(),
{
    let n = s.unicode_len();
    let mut found: Option<usize> = None;
    let mut i: usize = 0;
    while i < n
        invariant
            n == s@.len(),
            i <= n,
            found matches Some(k) ==> k < i && s@[k as int] == ':' && forall|j: int|
                0 <= j < i && j != k ==> s@[j] != ':',
            found is None ==> forall|j: int| 0 <= j < i ==> s@[j] != ':',
        decreases n - i,
    {
        if s.get_char(i) == ':' {
            if found.is_some() {
                assert(!well_formed_entry(s@)) by {
                    let k = found.unwrap();
                    if exists|m: int| 0 <= m < s@.len() && s@[m] == ':' && is_sole_colon(s@, m) {
                        let m = choose|m: int| 0 <= m < s@.len() && s@[m] == ':' && is_sole_colon(s@, m);
                        assert(m == k || m == i);
                    }
                }
                return None;
            }
            found = Some(i);
        }
        i = i + 1;
    }
    match found {
        None => None,
        Some(k) => {
            assert(is_sole_colon(s@, k as int));
            assert(well_formed_entry(s@));
            let ghost c = colon_index(s@);
            assert(c == k);
            Some(k)
        },
    }
}

/// Why a manifest could not be turned into a project.
#[derive(Debug)]
pub enum ProjectError {
    /// A dependency key that is not of the form `group:name`.
    MalformedDependency { entry: String },
}

/// The text between the first and the last character: a manifest renders a
/// string value with its surrounding quotes.
pub fn strip_first_last(text: String) -> (r: String)
    requires
        text@.len() >= 2,
    ensures
        r@ == text@.subrange(1, text@.len() - 1),
{
    let n = text.unicode_len();
    text.as_str().substring_char(1, n - 1).to_owned()
}

/// The public repository that every project searches first.
pub const DEFAULT_REPOSITORY: &'static str = "https://repo.maven.apache.org/maven2";

/// The repository list of a project: the default repository, then the `url` of
/// each configured repository that has one, in the order of the manifest.
pub open spec fn repository_list(default: Seq<char>, entries: Seq<Option<String>>) -> Seq<Seq<char>>
    decreases entries.len(),
{
    if entries.len() == 0 {
        seq![default]
    } else {
        let rest = repository_list(default, entries.drop_last());
        match entries.last() {
            Some(url) => rest.push(url@),
            None => rest,
        }
    }
}

/// The repositories to search, highest priority first.
pub fn repositories(entries: &Vec<Option<String>>) -> (r: Vec<String>)
    ensures
        r@.map_values(|s: String| s@) == repository_list(DEFAULT_REPOSITORY@, entries@),
{
    let mut r: Vec<String> = Vec::new();
    r.push(DEFAULT_REPOSITORY.to_owned());
    let mut i: usize = 0;
    while i < entries.len()
        invariant
            i <= entries@.len(),
            r@.map_values(|s: String| s@) == repository_list(DEFAULT_REPOSITORY@, entries@.subrange(0, i as int)),
        decreases entries@.len() - i,
    {
        let ghost before = r@;
        match &entries[i] {
            Some(url) => {
                r.push(url.clone());
                assert(r@.map_values(|s: String| s@) =~= before.map_values(|s: String| s@).push(url@));
            },
            None => {},
        }
        assert(entries@.subrange(0, i + 1).drop_last() =~= entries@.subrange(0, i as int));
        i = i + 1;
    }
    assert(entries@.subrange(0, entries@.len() as int) =~= entries@);
    r
}

/// The artifacts of a manifest's dependency table, given as its entries: the
/// key `group:name` and the rendered value.
pub fn dependencies(entries: &Vec<(String, String)>) -> (r: Result<Vec<Artifact>, ProjectError>)
    requires
        forall|i: int|
            0 <= i < entries@.len() && well_formed_entry((#[trigger] entries@[i]).0@) ==> entries@[i].1@.len() >= 2,
    ensures
        r is Ok <==> forall|i: int| 0 <= i < entries@.len() ==> well_formed_entry((#[trigger] entries@[i]).0@),
        r matches Ok(v) ==> v@.len() == entries@.len() && forall|i: int| 0 <= i < v@.len() ==> {
            &&& (#[trigger] v@[i]).wf()
            &&& v@[i].group@ == entry_group(entries@[i].0@)
            &&& v@[i].name@ == entry_name(entries@[i].0@)
            &&& v@[i].version@ == entries@[i].1@.subrange(1, entries@[i].1@.len() - 1)
        },
{
    let mut v: Vec<Artifact> = Vec::new();
    let mut i: usize = 0;
    while i < entries.len()
        invariant
            i <= entries@.len(),
            forall|j: int|
                0 <= j < entries@.len() && well_formed_entry((#[trigger] entries@[j]).0@) ==> entries@[j].1@.len() >= 2,
            forall|j: int| 0 <= j < i ==> well_formed_entry((#[trigger] entries@[j]).0@),
            v@.len() == i,
            forall|j: int| 0 <= j < i ==> {
                &&& (#[trigger] v@[j]).wf()
                &&& v@[j].group@ == entry_group(entries@[j].0@)
                &&& v@[j].name@ == entry_name(entries@[j].0@)
                &&& v@[j].version@ == entries@[j].1@.subrange(1, entries@[j].1@.len() - 1)
            },
        decreases entries@.len() - i,
    {
        let a = Artifact::from_table_entry(entries[i].0.as_str(), entries[i].1.clone());
        match a {
            Ok(a) => v.push(a),
            Err(e) => return Err(e),
        }
        i = i + 1;
    }
    Ok(v)
}

/// The project whose dependencies are resolved: its coordinates, its declared
/// dependencies and the repositories to search, highest priority first.
#[derive(Debug)]
pub struct Project {
    pub group: String,
    pub name: String,
    pub version: String,
    pub main_dependencies: Vec<Artifact>,
    pub test_dependencies: Vec<Artifact>,
    pub project_root: String,
    pub repositories: Vec<String>,
}

} // verus!
