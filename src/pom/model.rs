//! A strict form of the descriptor, in which every element that a released
//! artifact's descriptor usually carries is mandatory and nothing is inherited.
use vstd::prelude::*;

pub use crate::maven::pom::{
    ArtifactId, Description, Developers, GroupId, Licenses, ModelVersion, Name, Packaging, Scm, Url,
    Version,
};
use crate::maven::pom::{developers_matches, developers_ok, licenses_matches, licenses_ok, scm_matches, scm_ok};
use crate::maven::xml::{
    child_indices, doc_of, last_child, required, text_value, texts_readable, xml_tokens, Doc, GNode,
    ReadError,
};

verus! {

/// A complete descriptor of a released artifact.
#[derive(Debug)]
pub struct Pom {
    pub model_version: ModelVersion,
    pub group_id: GroupId,
    pub artifact_id: ArtifactId,
    pub version: Version,
    pub name: Name,
    pub packaging: Packaging,
    pub url: Url,
    pub description: Description,
    pub licences: Licenses,
    pub scm: Scm,
    pub developers: Developers,
    pub dependencies: Dependencies,
}

/// Element `k` of `d` holds what a `Pom` needs.
pub open spec fn pom_ok(d: Seq<GNode>, k: int) -> bool {
    &&& last_child(d, k, "modelVersion"@) is Some && text_value(d, last_child(d, k, "modelVersion"@)->Some_0) is Some
    &&& last_child(d, k, "groupId"@) is Some && text_value(d, last_child(d, k, "groupId"@)->Some_0) is Some
    &&& last_child(d, k, "artifactId"@) is Some && text_value(d, last_child(d, k, "artifactId"@)->Some_0) is Some
    &&& last_child(d, k, "version"@) is Some && text_value(d, last_child(d, k, "version"@)->Some_0) is Some
    &&& last_child(d, k, "name"@) is Some && text_value(d, last_child(d, k, "name"@)->Some_0) is Some
    &&& last_child(d, k, "packaging"@) is Some && text_value(d, last_child(d, k, "packaging"@)->Some_0) is Some
    &&& last_child(d, k, "url"@) is Some && text_value(d, last_child(d, k, "url"@)->Some_0) is Some
    &&& last_child(d, k, "description"@) is Some && text_value(d, last_child(d, k, "description"@)->Some_0) is Some
    &&& last_child(d, k, "licenses"@) is Some && licenses_ok(d, last_child(d, k, "licenses"@)->Some_0)
    &&& last_child(d, k, "scm"@) is Some && scm_ok(d, last_child(d, k, "scm"@)->Some_0)
    &&& last_child(d, k, "developers"@) is Some && developers_ok(d, last_child(d, k, "developers"@)->Some_0)
    &&& last_child(d, k, "dependencies"@) is Some && dependencies_ok(d, last_child(d, k, "dependencies"@)->Some_0)
}

/// `x` holds the values of element `k` of `d`.
pub open spec fn pom_matches(x: Pom, d: Seq<GNode>, k: int) -> bool {
    &&& Some(x.model_version.value@) == text_value(d, last_child(d, k, "modelVersion"@)->Some_0)
    &&& Some(x.group_id.value@) == text_value(d, last_child(d, k, "groupId"@)->Some_0)
    &&& Some(x.artifact_id.value@) == text_value(d, last_child(d, k, "artifactId"@)->Some_0)
    &&& Some(x.version.value@) == text_value(d, last_child(d, k, "version"@)->Some_0)
    &&& Some(x.name.value@) == text_value(d, last_child(d, k, "name"@)->Some_0)
    &&& Some(x.packaging.value@) == text_value(d, last_child(d, k, "packaging"@)->Some_0)
    &&& Some(x.url.value@) == text_value(d, last_child(d, k, "url"@)->Some_0)
    &&& Some(x.description.value@) == text_value(d, last_child(d, k, "description"@)->Some_0)
    &&& licenses_matches(x.licences, d, last_child(d, k, "licenses"@)->Some_0)
    &&& scm_matches(x.scm, d, last_child(d, k, "scm"@)->Some_0)
    &&& developers_matches(x.developers, d, last_child(d, k, "developers"@)->Some_0)
    &&& dependencies_matches(x.dependencies, d, last_child(d, k, "dependencies"@)->Some_0)
}

impl Pom {
    /// Reads element `k` of a document as a `Pom`; other children are ignored.
    pub(crate) fn read(doc: &Doc, k: usize) -> (r: Result<Pom, ReadError>)
        requires
            k < doc.spec_nodes().len(),
        ensures
            r is Ok <==> pom_ok(doc.spec_nodes(), k as int),
            r matches Ok(x) ==> pom_matches(x, doc.spec_nodes(), k as int),
            r matches Err(e) ==> e is MissingField || (e is Xml && !texts_readable(doc.spec_nodes())),
    {
        let model_version = match doc.last_child(k, "modelVersion") {
            Some(c) => Some(ModelVersion { value: doc.text(c)? }),
            None => None,
        };
        let model_version = required(model_version, "Pom", "model_version")?;
        let group_id = match doc.last_child(k, "groupId") {
            Some(c) => Some(GroupId { value: doc.text(c)? }),
            None => None,
        };
        let group_id = required(group_id, "Pom", "group_id")?;
        let artifact_id = match doc.last_child(k, "artifactId") {
            Some(c) => Some(ArtifactId { value: doc.text(c)? }),
            None => None,
        };
        let artifact_id = required(artifact_id, "Pom", "artifact_id")?;
        let version = match doc.last_child(k, "version") {
            Some(c) => Some(Version { value: doc.text(c)? }),
            None => None,
        };
        let version = required(version, "Pom", "version")?;
        let name = match doc.last_child(k, "name") {
            Some(c) => Some(Name { value: doc.text(c)? }),
            None => None,
        };
        let name = required(name, "Pom", "name")?;
        let packaging = match doc.last_child(k, "packaging") {
            Some(c) => Some(Packaging { value: doc.text(c)? }),
            None => None,
        };
        let packaging = required(packaging, "Pom", "packaging")?;
        let url = match doc.last_child(k, "url") {
            Some(c) => Some(Url { value: doc.text(c)? }),
            None => None,
        };
        let url = required(url, "Pom", "url")?;
        let description = match doc.last_child(k, "description") {
            Some(c) => Some(Description { value: doc.text(c)? }),
            None => None,
        };
        let description = required(description, "Pom", "description")?;
        let licences = match doc.last_child(k, "licenses") {
            Some(c) => Some(Licenses::read(doc, c)?),
            None => None,
        };
        let licences = required(licences, "Pom", "licences")?;
        let scm = match doc.last_child(k, "scm") {
            Some(c) => Some(Scm::read(doc, c)?),
            None => None,
        };
        let scm = required(scm, "Pom", "scm")?;
        let developers = match doc.last_child(k, "developers") {
            Some(c) => Some(Developers::read(doc, c)?),
            None => None,
        };
        let developers = required(developers, "Pom", "developers")?;
        let dependencies = match doc.last_child(k, "dependencies") {
            Some(c) => Some(Dependencies::read(doc, c)?),
            None => None,
        };
        let dependencies = required(dependencies, "Pom", "dependencies")?;
        Ok(Pom { model_version, group_id, artifact_id, version, name, packaging, url, description, licences, scm, developers, dependencies })
    }

    /// Reads a descriptor from its XML text.
    pub fn from_str(text: &str) -> (r: Result<Pom, ReadError>)
        ensures
            r is Ok <==> (doc_of(text@) matches Some(d) && d[0].name == "project"@ && pom_ok(d, 0)),
            r matches Ok(x) ==> pom_matches(x, doc_of(text@)->Some_0, 0),
            xml_tokens(text@) is None ==> r matches Err(ReadError::Xml(_)),
            xml_tokens(text@) is Some && !(doc_of(text@) matches Some(d) && d[0].name == "project"@)
                ==> r matches Err(ReadError::Malformed),
            (doc_of(text@) matches Some(d) && d[0].name == "project"@ && texts_readable(d) && !pom_ok(d, 0))
                ==> r matches Err(ReadError::MissingField { .. }),
    {
        let doc = Doc::parse(text, "project")?;
        Pom::read(&doc, 0)
    }
}

/// A list of dependencies.
#[derive(Debug)]
pub struct Dependencies {
    pub value: Vec<Dependency>,
}

/// Element `k` of `d` holds what a `Dependencies` needs.
pub open spec fn dependencies_ok(d: Seq<GNode>, k: int) -> bool {
    &&& forall|j: int| 0 <= j < child_indices(d, k, "dependency"@).len() ==> #[trigger] dependency_ok(d, child_indices(d, k, "dependency"@)[j])
}

/// `x` holds the values of element `k` of `d`.
pub open spec fn dependencies_matches(x: Dependencies, d: Seq<GNode>, k: int) -> bool {
    &&& x.value@.len() == child_indices(d, k, "dependency"@).len()
    &&& forall|j: int| 0 <= j < child_indices(d, k, "dependency"@).len() ==> #[trigger] dependency_matches(x.value@[j], d, child_indices(d, k, "dependency"@)[j])
}

impl Dependencies {
    /// Reads element `k` of a document as a `Dependencies`; other children are ignored.
    pub(crate) fn read(doc: &Doc, k: usize) -> (r: Result<Dependencies, ReadError>)
        requires
            k < doc.spec_nodes().len(),
        ensures
            r is Ok <==> dependencies_ok(doc.spec_nodes(), k as int),
            r matches Ok(x) ==> dependencies_matches(x, doc.spec_nodes(), k as int),
            r matches Err(e) ==> e is MissingField || (e is Xml && !texts_readable(doc.spec_nodes())),
    {
        let cs = doc.children(k, "dependency");
        let ghost ci = child_indices(doc.spec_nodes(), k as int, "dependency"@);
        let mut value: Vec<Dependency> = Vec::new();
        let mut i: usize = 0;
        while i < cs.len()
            invariant
                k < doc.spec_nodes().len(),
                ci == child_indices(doc.spec_nodes(), k as int, "dependency"@),
                cs@.len() == ci.len(),
                forall|j: int| 0 <= j < cs@.len() ==> #[trigger] cs@[j] as int == ci[j] && cs@[j] < doc.spec_nodes().len(),
                i <= cs@.len(),
                value@.len() == i,
                forall|j: int| 0 <= j < i ==> #[trigger] dependency_ok(doc.spec_nodes(), ci[j]),
                forall|j: int| 0 <= j < i ==> #[trigger] dependency_matches(value@[j], doc.spec_nodes(), ci[j]),
            decreases cs@.len() - i,
        {
            match Dependency::read(doc, cs[i]) {
                Ok(x) => value.push(x),
                Err(e) => {
                    assert(!dependency_ok(doc.spec_nodes(), ci[i as int]));
                    return Err(e);
                },
            }
            i = i + 1;
        }
        Ok(Dependencies { value })
    }
}

/// One dependency, with its version.
#[derive(Debug)]
pub struct Dependency {
    pub group_id: GroupId,
    pub artifact_id: ArtifactId,
    pub version: Version,
}

/// Element `k` of `d` holds what a `Dependency` needs.
pub open spec fn dependency_ok(d: Seq<GNode>, k: int) -> bool {
    &&& last_child(d, k, "groupId"@) is Some && text_value(d, last_child(d, k, "groupId"@)->Some_0) is Some
    &&& last_child(d, k, "artifactId"@) is Some && text_value(d, last_child(d, k, "artifactId"@)->Some_0) is Some
    &&& last_child(d, k, "version"@) is Some && text_value(d, last_child(d, k, "version"@)->Some_0) is Some
}

/// `x` holds the values of element `k` of `d`.
pub open spec fn dependency_matches(x: Dependency, d: Seq<GNode>, k: int) -> bool {
    &&& Some(x.group_id.value@) == text_value(d, last_child(d, k, "groupId"@)->Some_0)
    &&& Some(x.artifact_id.value@) == text_value(d, last_child(d, k, "artifactId"@)->Some_0)
    &&& Some(x.version.value@) == text_value(d, last_child(d, k, "version"@)->Some_0)
}

impl Dependency {
    /// Reads element `k` of a document as a `Dependency`; other children are ignored.
    pub(crate) fn read(doc: &Doc, k: usize) -> (r: Result<Dependency, ReadError>)
        requires
            k < doc.spec_nodes().len(),
        ensures
            r is Ok <==> dependency_ok(doc.spec_nodes(), k as int),
            r matches Ok(x) ==> dependency_matches(x, doc.spec_nodes(), k as int),
            r matches Err(e) ==> e is MissingField || (e is Xml && !texts_readable(doc.spec_nodes())),
    {
        let group_id = match doc.last_child(k, "groupId") {
            Some(c) => Some(GroupId { value: doc.text(c)? }),
            None => None,
        };
        let group_id = required(group_id, "Dependency", "group_id")?;
        let artifact_id = match doc.last_child(k, "artifactId") {
            Some(c) => Some(ArtifactId { value: doc.text(c)? }),
            None => None,
        };
        let artifact_id = required(artifact_id, "Dependency", "artifact_id")?;
        let version = match doc.last_child(k, "version") {
            Some(c) => Some(Version { value: doc.text(c)? }),
            None => None,
        };
        let version = required(version, "Dependency", "version")?;
        Ok(Dependency { group_id, artifact_id, version })
    }
}

} // verus!
