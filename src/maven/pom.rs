//! The Maven descriptor (POM) as a document: what it declares, before any
//! inheritance from a parent is applied.
use vstd::prelude::*;

use crate::maven::xml::{
    child_indices, doc_of, last_child, required, text_value, texts_readable, xml_tokens, Doc, GNode,
    ReadError,
};

verus! {

/// A descriptor: its parent reference, its own coordinates (the group and the version may be left to the parent), its dependencies and the versions it manages for descendants.
#[derive(Debug)]
pub struct Pom {
    pub model_version: ModelVersion,
    pub parent: Option<Parent>,
    pub group_id: Option<GroupId>,
    pub artifact_id: ArtifactId,
    pub version: Option<Version>,
    pub name: Option<Name>,
    pub packaging: Option<Packaging>,
    pub url: Option<Url>,
    pub description: Option<Description>,
    pub licences: Option<Licenses>,
    pub scm: Option<Scm>,
    pub developers: Option<Developers>,
    pub dependencies: Option<Dependencies>,
    pub dependency_management: Option<DependencyManagement>,
}

/// Element `k` of `d` holds what a `Pom` needs.
pub open spec fn pom_ok(d: Seq<GNode>, k: int) -> bool {
    &&& last_child(d, k, "modelVersion"@) is Some && text_value(d, last_child(d, k, "modelVersion"@)->Some_0) is Some
    &&& last_child(d, k, "parent"@) is Some ==> parent_ok(d, last_child(d, k, "parent"@)->Some_0)
    &&& last_child(d, k, "groupId"@) is Some ==> text_value(d, last_child(d, k, "groupId"@)->Some_0) is Some
    &&& last_child(d, k, "artifactId"@) is Some && text_value(d, last_child(d, k, "artifactId"@)->Some_0) is Some
    &&& last_child(d, k, "version"@) is Some ==> text_value(d, last_child(d, k, "version"@)->Some_0) is Some
    &&& last_child(d, k, "name"@) is Some ==> text_value(d, last_child(d, k, "name"@)->Some_0) is Some
    &&& last_child(d, k, "packaging"@) is Some ==> text_value(d, last_child(d, k, "packaging"@)->Some_0) is Some
    &&& last_child(d, k, "url"@) is Some ==> text_value(d, last_child(d, k, "url"@)->Some_0) is Some
    &&& last_child(d, k, "description"@) is Some ==> text_value(d, last_child(d, k, "description"@)->Some_0) is Some
    &&& last_child(d, k, "licenses"@) is Some ==> licenses_ok(d, last_child(d, k, "licenses"@)->Some_0)
    &&& last_child(d, k, "scm"@) is Some ==> scm_ok(d, last_child(d, k, "scm"@)->Some_0)
    &&& last_child(d, k, "developers"@) is Some ==> developers_ok(d, last_child(d, k, "developers"@)->Some_0)
    &&& last_child(d, k, "dependencies"@) is Some ==> dependencies_ok(d, last_child(d, k, "dependencies"@)->Some_0)
    &&& last_child(d, k, "dependencyManagement"@) is Some ==> dependency_management_ok(d, last_child(d, k, "dependencyManagement"@)->Some_0)
}

/// `x` holds the values of element `k` of `d`.
pub open spec fn pom_matches(x: Pom, d: Seq<GNode>, k: int) -> bool {
    &&& Some(x.model_version.value@) == text_value(d, last_child(d, k, "modelVersion"@)->Some_0)
    &&& x.parent is Some <==> last_child(d, k, "parent"@) is Some
    &&& x.parent is Some ==> parent_matches(x.parent->Some_0, d, last_child(d, k, "parent"@)->Some_0)
    &&& x.group_id is Some <==> last_child(d, k, "groupId"@) is Some
    &&& x.group_id is Some ==> Some(x.group_id->Some_0.value@) == text_value(d, last_child(d, k, "groupId"@)->Some_0)
    &&& Some(x.artifact_id.value@) == text_value(d, last_child(d, k, "artifactId"@)->Some_0)
    &&& x.version is Some <==> last_child(d, k, "version"@) is Some
    &&& x.version is Some ==> Some(x.version->Some_0.value@) == text_value(d, last_child(d, k, "version"@)->Some_0)
    &&& x.name is Some <==> last_child(d, k, "name"@) is Some
    &&& x.name is Some ==> Some(x.name->Some_0.value@) == text_value(d, last_child(d, k, "name"@)->Some_0)
    &&& x.packaging is Some <==> last_child(d, k, "packaging"@) is Some
    &&& x.packaging is Some ==> Some(x.packaging->Some_0.value@) == text_value(d, last_child(d, k, "packaging"@)->Some_0)
    &&& x.url is Some <==> last_child(d, k, "url"@) is Some
    &&& x.url is Some ==> Some(x.url->Some_0.value@) == text_value(d, last_child(d, k, "url"@)->Some_0)
    &&& x.description is Some <==> last_child(d, k, "description"@) is Some
    &&& x.description is Some ==> Some(x.description->Some_0.value@) == text_value(d, last_child(d, k, "description"@)->Some_0)
    &&& x.licences is Some <==> last_child(d, k, "licenses"@) is Some
    &&& x.licences is Some ==> licenses_matches(x.licences->Some_0, d, last_child(d, k, "licenses"@)->Some_0)
    &&& x.scm is Some <==> last_child(d, k, "scm"@) is Some
    &&& x.scm is Some ==> scm_matches(x.scm->Some_0, d, last_child(d, k, "scm"@)->Some_0)
    &&& x.developers is Some <==> last_child(d, k, "developers"@) is Some
    &&& x.developers is Some ==> developers_matches(x.developers->Some_0, d, last_child(d, k, "developers"@)->Some_0)
    &&& x.dependencies is Some <==> last_child(d, k, "dependencies"@) is Some
    &&& x.dependencies is Some ==> dependencies_matches(x.dependencies->Some_0, d, last_child(d, k, "dependencies"@)->Some_0)
    &&& x.dependency_management is Some <==> last_child(d, k, "dependencyManagement"@) is Some
    &&& x.dependency_management is Some ==> dependency_management_matches(x.dependency_management->Some_0, d, last_child(d, k, "dependencyManagement"@)->Some_0)
}

impl Pom {
    /// Reads element `k` of a document as a `Pom`; other children are ignored.
    pub(crate) fn read(doc: &Doc, k: usize) -> (r: Result<Pom, ReadError>)
        requires
            k < doc.spec_nodes().len(),
        ensures
            r is Ok <==> pom_ok(doc.spec_nodes(), k as int),
            r matches Ok(x) ==> pom_matches(x, doc.spec_nodes(), k as int),
            r matches Err(e) ==> e is MissingField || (e is Xml && !texts_readable(doc.spec_nodes())),
    {
        let model_version = match doc.last_child(k, "modelVersion") {
            Some(c) => Some(ModelVersion { value: doc.text(c)? }),
            None => None,
        };
        let model_version = required(model_version, "Pom", "model_version")?;
        let parent = match doc.last_child(k, "parent") {
            Some(c) => Some(Parent::read(doc, c)?),
            None => None,
        };
        let group_id = match doc.last_child(k, "groupId") {
            Some(c) => Some(GroupId { value: doc.text(c)? }),
            None => None,
        };
        let artifact_id = match doc.last_child(k, "artifactId") {
            Some(c) => Some(ArtifactId { value: doc.text(c)? }),
            None => None,
        };
        let artifact_id = required(artifact_id, "Pom", "artifact_id")?;
        let version = match doc.last_child(k, "version") {
            Some(c) => Some(Version { value: doc.text(c)? }),
            None => None,
        };
        let name = match doc.last_child(k, "name") {
            Some(c) => Some(Name { value: doc.text(c)? }),
            None => None,
        };
        let packaging = match doc.last_child(k, "packaging") {
            Some(c) => Some(Packaging { value: doc.text(c)? }),
            None => None,
        };
        let url = match doc.last_child(k, "url") {
            Some(c) => Some(Url { value: doc.text(c)? }),
            None => None,
        };
        let description = match doc.last_child(k, "description") {
            Some(c) => Some(Description { value: doc.text(c)? }),
            None => None,
        };
        let licences = match doc.last_child(k, "licenses") {
            Some(c) => Some(Licenses::read(doc, c)?),
            None => None,
        };
        let scm = match doc.last_child(k, "scm") {
            Some(c) => Some(Scm::read(doc, c)?),
            None => None,
        };
        let developers = match doc.last_child(k, "developers") {
            Some(c) => Some(Developers::read(doc, c)?),
            None => None,
        };
        let dependencies = match doc.last_child(k, "dependencies") {
            Some(c) => Some(Dependencies::read(doc, c)?),
            None => None,
        };
        let dependency_management = match doc.last_child(k, "dependencyManagement") {
            Some(c) => Some(DependencyManagement::read(doc, c)?),
            None => None,
        };
        Ok(Pom { model_version, parent, group_id, artifact_id, version, name, packaging, url, description, licences, scm, developers, dependencies, dependency_management })
    }

    /// Reads a descriptor from its XML text.
    pub fn from_str(text: &str) -> (r: Result<Pom, ReadError>)
        ensures
            r is Ok <==> (doc_of(text@) matches Some(d) && d[0].name == "project"@ && pom_ok(d, 0)),
            r matches Ok(x) ==> pom_matches(x, doc_of(text@)->Some_0, 0),
            xml_tokens(text@) is None ==> r matches Err(ReadError::Xml(_)),
            xml_tokens(text@) is Some && !(doc_of(text@) matches Some(d) && d[0].name == "project"@)
                ==> r matches Err(ReadError::Malformed),
            (doc_of(text@) matches Some(d) && d[0].name == "project"@ && texts_readable(d) && !pom_ok(d, 0))
                ==> r matches Err(ReadError::MissingField { .. }),
    {
        let doc = Doc::parse(text, "project")?;
        Pom::read(&doc, 0)
    }
}

/// The version of the descriptor format.
#[derive(Debug)]
pub struct ModelVersion {
    pub value: String,
}

/// The group of an artifact.
#[derive(Debug)]
pub struct GroupId {
    pub value: String,
}

/// The name of an artifact within its group.
#[derive(Debug)]
pub struct ArtifactId {
    pub value: String,
}

/// The version of an artifact.
#[derive(Debug)]
pub struct Version {
    pub value: String,
}

/// A display name.
#[derive(Debug)]
pub struct Name {
    pub value: String,
}

/// An identifier.
#[derive(Debug)]
pub struct Id {
    pub value: String,
}

/// The kind of bundle an artifact is released as.
#[derive(Debug)]
pub struct Packaging {
    pub value: String,
}

/// A web address.
#[derive(Debug)]
pub struct Url {
    pub value: String,
}

/// A free-text description.
#[derive(Debug)]
pub struct Description {
    pub value: String,
}

/// How a license's artifact is distributed.
#[derive(Debug)]
pub struct Distribution {
    pub value: String,
}

/// The licenses of an artifact.
#[derive(Debug)]
pub struct Licenses {
    pub licenses: Vec<License>,
}

/// Element `k` of `d` holds what a `Licenses` needs.
pub open spec fn licenses_ok(d: Seq<GNode>, k: int) -> bool {
    &&& forall|j: int| 0 <= j < child_indices(d, k, "license"@).len() ==> #[trigger] license_ok(d, child_indices(d, k, "license"@)[j])
}

/// `x` holds the values of element `k` of `d`.
pub open spec fn licenses_matches(x: Licenses, d: Seq<GNode>, k: int) -> bool {
    &&& x.licenses@.len() == child_indices(d, k, "license"@).len()
    &&& forall|j: int| 0 <= j < child_indices(d, k, "license"@).len() ==> #[trigger] license_matches(x.licenses@[j], d, child_indices(d, k, "license"@)[j])
}

impl Licenses {
    /// Reads element `k` of a document as a `Licenses`; other children are ignored.
    pub(crate) fn read(doc: &Doc, k: usize) -> (r: Result<Licenses, ReadError>)
        requires
            k < doc.spec_nodes().len(),
        ensures
            r is Ok <==> licenses_ok(doc.spec_nodes(), k as int),
            r matches Ok(x) ==> licenses_matches(x, doc.spec_nodes(), k as int),
            r matches Err(e) ==> e is MissingField || (e is Xml && !texts_readable(doc.spec_nodes())),
    {
        let cs = doc.children(k, "license");
        let ghost ci = child_indices(doc.spec_nodes(), k as int, "license"@);
        let mut licenses: Vec<License> = Vec::new();
        let mut i: usize = 0;
        while i < cs.len()
            invariant
                k < doc.spec_nodes().len(),
                ci == child_indices(doc.spec_nodes(), k as int, "license"@),
                cs@.len() == ci.len(),
                forall|j: int| 0 <= j < cs@.len() ==> #[trigger] cs@[j] as int == ci[j] && cs@[j] < doc.spec_nodes().len(),
                i <= cs@.len(),
                licenses@.len() == i,
                forall|j: int| 0 <= j < i ==> #[trigger] license_ok(doc.spec_nodes(), ci[j]),
                forall|j: int| 0 <= j < i ==> #[trigger] license_matches(licenses@[j], doc.spec_nodes(), ci[j]),
            decreases cs@.len() - i,
        {
            match License::read(doc, cs[i]) {
                Ok(x) => licenses.push(x),
                Err(e) => {
                    assert(!license_ok(doc.spec_nodes(), ci[i as int]));
                    return Err(e);
                },
            }
            i = i + 1;
        }
        Ok(Licenses { licenses })
    }
}

/// One license.
#[derive(Debug)]
pub struct License {
    pub name: Name,
    pub url: Url,
    pub distribution: Option<Distribution>,
}

/// Element `k` of `d` holds what a `License` needs.
pub open spec fn license_ok(d: Seq<GNode>, k: int) -> bool {
    &&& last_child(d, k, "name"@) is Some && text_value(d, last_child(d, k, "name"@)->Some_0) is Some
    &&& last_child(d, k, "url"@) is Some && text_value(d, last_child(d, k, "url"@)->Some_0) is Some
    &&& last_child(d, k, "distribution"@) is Some ==> text_value(d, last_child(d, k, "distribution"@)->Some_0) is Some
}

/// `x` holds the values of element `k` of `d`.
pub open spec fn license_matches(x: License, d: Seq<GNode>, k: int) -> bool {
    &&& Some(x.name.value@) == text_value(d, last_child(d, k, "name"@)->Some_0)
    &&& Some(x.url.value@) == text_value(d, last_child(d, k, "url"@)->Some_0)
    &&& x.distribution is Some <==> last_child(d, k, "distribution"@) is Some
    &&& x.distribution is Some ==> Some(x.distribution->Some_0.value@) == text_value(d, last_child(d, k, "distribution"@)->Some_0)
}

impl License {
    /// Reads element `k` of a document as a `License`; other children are ignored.
    pub(crate) fn read(doc: &Doc, k: usize) -> (r: Result<License, ReadError>)
        requires
            k < doc.spec_nodes().len(),
        ensures
            r is Ok <==> license_ok(doc.spec_nodes(), k as int),
            r matches Ok(x) ==> license_matches(x, doc.spec_nodes(), k as int),
            r matches Err(e) ==> e is MissingField || (e is Xml && !texts_readable(doc.spec_nodes())),
    {
        let name = match doc.last_child(k, "name") {
            Some(c) => Some(Name { value: doc.text(c)? }),
            None => None,
        };
        let name = required(name, "License", "name")?;
        let url = match doc.last_child(k, "url") {
            Some(c) => Some(Url { value: doc.text(c)? }),
            None => None,
        };
        let url = required(url, "License", "url")?;
        let distribution = match doc.last_child(k, "distribution") {
            Some(c) => Some(Distribution { value: doc.text(c)? }),
            None => None,
        };
        Ok(License { name, url, distribution })
    }
}

/// The coordinates of the descriptor that this one inherits from.
#[derive(Debug)]
pub struct Parent {
    pub group_id: GroupId,
    pub artifact_id: ArtifactId,
    pub version: Version,
}

/// Element `k` of `d` holds what a `Parent` needs.
pub open spec fn parent_ok(d: Seq<GNode>, k: int) -> bool {
    &&& last_child(d, k, "groupId"@) is Some && text_value(d, last_child(d, k, "groupId"@)->Some_0) is Some
    &&& last_child(d, k, "artifactId"@) is Some && text_value(d, last_child(d, k, "artifactId"@)->Some_0) is Some
    &&& last_child(d, k, "version"@) is Some && text_value(d, last_child(d, k, "version"@)->Some_0) is Some
}

/// `x` holds the values of element `k` of `d`.
pub open spec fn parent_matches(x: Parent, d: Seq<GNode>, k: int) -> bool {
    &&& Some(x.group_id.value@) == text_value(d, last_child(d, k, "groupId"@)->Some_0)
    &&& Some(x.artifact_id.value@) == text_value(d, last_child(d, k, "artifactId"@)->Some_0)
    &&& Some(x.version.value@) == text_value(d, last_child(d, k, "version"@)->Some_0)
}

impl Parent {
    /// Reads element `k` of a document as a `Parent`; other children are ignored.
    pub(crate) fn read(doc: &Doc, k: usize) -> (r: Result<Parent, ReadError>)
        requires
            k < doc.spec_nodes().len(),
        ensures
            r is Ok <==> parent_ok(doc.spec_nodes(), k as int),
            r matches Ok(x) ==> parent_matches(x, doc.spec_nodes(), k as int),
            r matches Err(e) ==> e is MissingField || (e is Xml && !texts_readable(doc.spec_nodes())),
    {
        let group_id = match doc.last_child(k, "groupId") {
            Some(c) => Some(GroupId { value: doc.text(c)? }),
            None => None,
        };
        let group_id = required(group_id, "Parent", "group_id")?;
        let artifact_id = match doc.last_child(k, "artifactId") {
            Some(c) => Some(ArtifactId { value: doc.text(c)? }),
            None => None,
        };
        let artifact_id = required(artifact_id, "Parent", "artifact_id")?;
        let version = match doc.last_child(k, "version") {
            Some(c) => Some(Version { value: doc.text(c)? }),
            None => None,
        };
        let version = required(version, "Parent", "version")?;
        Ok(Parent { group_id, artifact_id, version })
    }
}

/// Where the sources are kept.
#[derive(Debug)]
pub struct Scm {
    pub url: Url,
}

/// Element `k` of `d` holds what a `Scm` needs.
pub open spec fn scm_ok(d: Seq<GNode>, k: int) -> bool {
    &&& last_child(d, k, "url"@) is Some && text_value(d, last_child(d, k, "url"@)->Some_0) is Some
}

/// `x` holds the values of element `k` of `d`.
pub open spec fn scm_matches(x: Scm, d: Seq<GNode>, k: int) -> bool {
    &&& Some(x.url.value@) == text_value(d, last_child(d, k, "url"@)->Some_0)
}

impl Scm {
    /// Reads element `k` of a document as a `Scm`; other children are ignored.
    pub(crate) fn read(doc: &Doc, k: usize) -> (r: Result<Scm, ReadError>)
        requires
            k < doc.spec_nodes().len(),
        ensures
            r is Ok <==> scm_ok(doc.spec_nodes(), k as int),
            r matches Ok(x) ==> scm_matches(x, doc.spec_nodes(), k as int),
            r matches Err(e) ==> e is MissingField || (e is Xml && !texts_readable(doc.spec_nodes())),
    {
        let url = match doc.last_child(k, "url") {
            Some(c) => Some(Url { value: doc.text(c)? }),
            None => None,
        };
        let url = required(url, "Scm", "url")?;
        Ok(Scm { url })
    }
}

/// The people who develop an artifact.
#[derive(Debug)]
pub struct Developers {
    pub developers: Vec<Developer>,
}

/// Element `k` of `d` holds what a `Developers` needs.
pub open spec fn developers_ok(d: Seq<GNode>, k: int) -> bool {
    &&& forall|j: int| 0 <= j < child_indices(d, k, "developer"@).len() ==> #[trigger] developer_ok(d, child_indices(d, k, "developer"@)[j])
}

/// `x` holds the values of element `k` of `d`.
pub open spec fn developers_matches(x: Developers, d: Seq<GNode>, k: int) -> bool {
    &&& x.developers@.len() == child_indices(d, k, "developer"@).len()
    &&& forall|j: int| 0 <= j < child_indices(d, k, "developer"@).len() ==> #[trigger] developer_matches(x.developers@[j], d, child_indices(d, k, "developer"@)[j])
}

impl Developers {
    /// Reads element `k` of a document as a `Developers`; other children are ignored.
    pub(crate) fn read(doc: &Doc, k: usize) -> (r: Result<Developers, ReadError>)
        requires
            k < doc.spec_nodes().len(),
        ensures
            r is Ok <==> developers_ok(doc.spec_nodes(), k as int),
            r matches Ok(x) ==> developers_matches(x, doc.spec_nodes(), k as int),
            r matches Err(e) ==> e is MissingField || (e is Xml && !texts_readable(doc.spec_nodes())),
    {
        let cs = doc.children(k, "developer");
        let ghost ci = child_indices(doc.spec_nodes(), k as int, "developer"@);
        let mut developers: Vec<Developer> = Vec::new();
        let mut i: usize = 0;
        while i < cs.len()
            invariant
                k < doc.spec_nodes().len(),
                ci == child_indices(doc.spec_nodes(), k as int, "developer"@),
                cs@.len() == ci.len(),
                forall|j: int| 0 <= j < cs@.len() ==> #[trigger] cs@[j] as int == ci[j] && cs@[j] < doc.spec_nodes().len(),
                i <= cs@.len(),
                developers@.len() == i,
                forall|j: int| 0 <= j < i ==> #[trigger] developer_ok(doc.spec_nodes(), ci[j]),
                forall|j: int| 0 <= j < i ==> #[trigger] developer_matches(developers@[j], doc.spec_nodes(), ci[j]),
            decreases cs@.len() - i,
        {
            match Developer::read(doc, cs[i]) {
                Ok(x) => developers.push(x),
                Err(e) => {
                    assert(!developer_ok(doc.spec_nodes(), ci[i as int]));
                    return Err(e);
                },
            }
            i = i + 1;
        }
        Ok(Developers { developers })
    }
}

/// One developer.
#[derive(Debug)]
pub struct Developer {
    pub id: Option<Id>,
    pub name: Name,
}

/// Element `k` of `d` holds what a `Developer` needs.
pub open spec fn developer_ok(d: Seq<GNode>, k: int) -> bool {
    &&& last_child(d, k, "id"@) is Some ==> text_value(d, last_child(d, k, "id"@)->Some_0) is Some
    &&& last_child(d, k, "name"@) is Some && text_value(d, last_child(d, k, "name"@)->Some_0) is Some
}

/// `x` holds the values of element `k` of `d`.
pub open spec fn developer_matches(x: Developer, d: Seq<GNode>, k: int) -> bool {
    &&& x.id is Some <==> last_child(d, k, "id"@) is Some
    &&& x.id is Some ==> Some(x.id->Some_0.value@) == text_value(d, last_child(d, k, "id"@)->Some_0)
    &&& Some(x.name.value@) == text_value(d, last_child(d, k, "name"@)->Some_0)
}

impl Developer {
    /// Reads element `k` of a document as a `Developer`; other children are ignored.
    pub(crate) fn read(doc: &Doc, k: usize) -> (r: Result<Developer, ReadError>)
        requires
            k < doc.spec_nodes().len(),
        ensures
            r is Ok <==> developer_ok(doc.spec_nodes(), k as int),
            r matches Ok(x) ==> developer_matches(x, doc.spec_nodes(), k as int),
            r matches Err(e) ==> e is MissingField || (e is Xml && !texts_readable(doc.spec_nodes())),
    {
        let id = match doc.last_child(k, "id") {
            Some(c) => Some(Id { value: doc.text(c)? }),
            None => None,
        };
        let name = match doc.last_child(k, "name") {
            Some(c) => Some(Name { value: doc.text(c)? }),
            None => None,
        };
        let name = required(name, "Developer", "name")?;
        Ok(Developer { id, name })
    }
}

/// A list of dependencies.
#[derive(Debug)]
pub struct Dependencies {
    pub value: Vec<Dependency>,
}

/// Element `k` of `d` holds what a `Dependencies` needs.
pub open spec fn dependencies_ok(d: Seq<GNode>, k: int) -> bool {
    &&& forall|j: int| 0 <= j < child_indices(d, k, "dependency"@).len() ==> #[trigger] dependency_ok(d, child_indices(d, k, "dependency"@)[j])
}

/// `x` holds the values of element `k` of `d`.
pub open spec fn dependencies_matches(x: Dependencies, d: Seq<GNode>, k: int) -> bool {
    &&& x.value@.len() == child_indices(d, k, "dependency"@).len()
    &&& forall|j: int| 0 <= j < child_indices(d, k, "dependency"@).len() ==> #[trigger] dependency_matches(x.value@[j], d, child_indices(d, k, "dependency"@)[j])
}

impl Dependencies {
    /// Reads element `k` of a document as a `Dependencies`; other children are ignored.
    pub(crate) fn read(doc: &Doc, k: usize) -> (r: Result<Dependencies, ReadError>)
        requires
            k < doc.spec_nodes().len(),
        ensures
            r is Ok <==> dependencies_ok(doc.spec_nodes(), k as int),
            r matches Ok(x) ==> dependencies_matches(x, doc.spec_nodes(), k as int),
            r matches Err(e) ==> e is MissingField || (e is Xml && !texts_readable(doc.spec_nodes())),
    {
        let cs = doc.children(k, "dependency");
        let ghost ci = child_indices(doc.spec_nodes(), k as int, "dependency"@);
        let mut value: Vec<Dependency> = Vec::new();
        let mut i: usize = 0;
        while i < cs.len()
            invariant
                k < doc.spec_nodes().len(),
                ci == child_indices(doc.spec_nodes(), k as int, "dependency"@),
                cs@.len() == ci.len(),
                forall|j: int| 0 <= j < cs@.len() ==> #[trigger] cs@[j] as int == ci[j] && cs@[j] < doc.spec_nodes().len(),
                i <= cs@.len(),
                value@.len() == i,
                forall|j: int| 0 <= j < i ==> #[trigger] dependency_ok(doc.spec_nodes(), ci[j]),
                forall|j: int| 0 <= j < i ==> #[trigger] dependency_matches(value@[j], doc.spec_nodes(), ci[j]),
            decreases cs@.len() - i,
        {
            match Dependency::read(doc, cs[i]) {
                Ok(x) => value.push(x),
                Err(e) => {
                    assert(!dependency_ok(doc.spec_nodes(), ci[i as int]));
                    return Err(e);
                },
            }
            i = i + 1;
        }
        Ok(Dependencies { value })
    }
}

/// The versions that a descriptor manages for its descendants.
#[derive(Debug)]
pub struct DependencyManagement {
    pub value: Dependencies,
}

/// Element `k` of `d` holds what a `DependencyManagement` needs.
pub open spec fn dependency_management_ok(d: Seq<GNode>, k: int) -> bool {
    &&& last_child(d, k, "dependencies"@) is Some && dependencies_ok(d, last_child(d, k, "dependencies"@)->Some_0)
}

/// `x` holds the values of element `k` of `d`.
pub open spec fn dependency_management_matches(x: DependencyManagement, d: Seq<GNode>, k: int) -> bool {
    &&& dependencies_matches(x.value, d, last_child(d, k, "dependencies"@)->Some_0)
}

impl DependencyManagement {
    /// Reads element `k` of a document as a `DependencyManagement`; other children are ignored.
    pub(crate) fn read(doc: &Doc, k: usize) -> (r: Result<DependencyManagement, ReadError>)
        requires
            k < doc.spec_nodes().len(),
        ensures
            r is Ok <==> dependency_management_ok(doc.spec_nodes(), k as int),
            r matches Ok(x) ==> dependency_management_matches(x, doc.spec_nodes(), k as int),
            r matches Err(e) ==> e is MissingField || (e is Xml && !texts_readable(doc.spec_nodes())),
    {
        let value = match doc.last_child(k, "dependencies") {
            Some(c) => Some(Dependencies::read(doc, c)?),
            None => None,
        };
        let value = required(value, "DependencyManagement", "value")?;
        Ok(DependencyManagement { value })
    }
}

/// One dependency; without a version it takes the one that an ancestor manages.
#[derive(Debug)]
pub struct Dependency {
    pub group_id: GroupId,
    pub artifact_id: ArtifactId,
    pub version: Option<Version>,
}

/// Element `k` of `d` holds what a `Dependency` needs.
pub open spec fn dependency_ok(d: Seq<GNode>, k: int) -> bool {
    &&& last_child(d, k, "groupId"@) is Some && text_value(d, last_child(d, k, "groupId"@)->Some_0) is Some
    &&& last_child(d, k, "artifactId"@) is Some && text_value(d, last_child(d, k, "artifactId"@)->Some_0) is Some
    &&& last_child(d, k, "version"@) is Some ==> text_value(d, last_child(d, k, "version"@)->Some_0) is Some
}

/// `x` holds the values of element `k` of `d`.
pub open spec fn dependency_matches(x: Dependency, d: Seq<GNode>, k: int) -> bool {
    &&& Some(x.group_id.value@) == text_value(d, last_child(d, k, "groupId"@)->Some_0)
    &&& Some(x.artifact_id.value@) == text_value(d, last_child(d, k, "artifactId"@)->Some_0)
    &&& x.version is Some <==> last_child(d, k, "version"@) is Some
    &&& x.version is Some ==> Some(x.version->Some_0.value@) == text_value(d, last_child(d, k, "version"@)->Some_0)
}

impl Dependency {
    /// Reads element `k` of a document as a `Dependency`; other children are ignored.
    pub(crate) fn read(doc: &Doc, k: usize) -> (r: Result<Dependency, ReadError>)
        requires
            k < doc.spec_nodes().len(),
        ensures
            r is Ok <==> dependency_ok(doc.spec_nodes(), k as int),
            r matches Ok(x) ==> dependency_matches(x, doc.spec_nodes(), k as int),
            r matches Err(e) ==> e is MissingField || (e is Xml && !texts_readable(doc.spec_nodes())),
    {
        let group_id = match doc.last_child(k, "groupId") {
            Some(c) => Some(GroupId { value: doc.text(c)? }),
            None => None,
        };
        let group_id = required(group_id, "Dependency", "group_id")?;
        let artifact_id = match doc.last_child(k, "artifactId") {
            Some(c) => Some(ArtifactId { value: doc.text(c)? }),
            None => None,
        };
        let artifact_id = required(artifact_id, "Dependency", "artifact_id")?;
        let version = match doc.last_child(k, "version") {
            Some(c) => Some(Version { value: doc.text(c)? }),
            None => None,
        };
        Ok(Dependency { group_id, artifact_id, version })
    }
}

} // verus!
