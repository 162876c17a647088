//! The repository metadata of a snapshot version: which timestamped build
//! the moving "-SNAPSHOT" name stands for.
use vstd::prelude::*;

use crate::maven::pom::{ArtifactId, GroupId, Version};
use crate::maven::xml::{
    child_indices, doc_of, last_child, required, text_value, texts_readable, xml_tokens, Doc, GNode,
    ReadError,
};

verus! {

/// The metadata text reads as a document.
pub open spec fn metadata_reads(text: Seq<char>) -> bool {
    doc_of(text) matches Some(d) && d[0].name == "metadata"@ && metadata_ok(d, 0)
}

/// The `snapshot` element of a metadata document.
pub open spec fn snapshot_element(d: Seq<GNode>) -> int {
    last_child(d, last_child(d, 0, "versioning"@)->Some_0, "snapshot"@)->Some_0
}

/// The timestamp of the latest snapshot build that a metadata document names.
pub open spec fn snapshot_timestamp(d: Seq<GNode>) -> Seq<char> {
    text_value(d, last_child(d, snapshot_element(d), "timestamp"@)->Some_0)->Some_0
}

/// The number of the latest snapshot build that a metadata document names.
pub open spec fn snapshot_build_number(d: Seq<GNode>) -> Seq<char> {
    text_value(d, last_child(d, snapshot_element(d), "buildNumber"@)->Some_0)->Some_0
}

/// The `maven-metadata.xml` document of one snapshot version.
#[derive(Debug)]
pub struct Metadata {
    pub group_id: GroupId,
    pub artifact_id: ArtifactId,
    pub version: Version,
    pub versioning: Versioning,
}

/// Element `k` of `d` holds what a `Metadata` needs.
pub open spec fn metadata_ok(d: Seq<GNode>, k: int) -> bool {
    &&& last_child(d, k, "groupId"@) is Some && text_value(d, last_child(d, k, "groupId"@)->Some_0) is Some
    &&& last_child(d, k, "artifactId"@) is Some && text_value(d, last_child(d, k, "artifactId"@)->Some_0) is Some
    &&& last_child(d, k, "version"@) is Some && text_value(d, last_child(d, k, "version"@)->Some_0) is Some
    &&& last_child(d, k, "versioning"@) is Some && versioning_ok(d, last_child(d, k, "versioning"@)->Some_0)
}

/// `x` holds the values of element `k` of `d`.
pub open spec fn metadata_matches(x: Metadata, d: Seq<GNode>, k: int) -> bool {
    &&& Some(x.group_id.value@) == text_value(d, last_child(d, k, "groupId"@)->Some_0)
    &&& Some(x.artifact_id.value@) == text_value(d, last_child(d, k, "artifactId"@)->Some_0)
    &&& Some(x.version.value@) == text_value(d, last_child(d, k, "version"@)->Some_0)
    &&& versioning_matches(x.versioning, d, last_child(d, k, "versioning"@)->Some_0)
}

impl Metadata {
    /// Reads element `k` of a document as a `Metadata`; other children are ignored.
    pub(crate) fn read(doc: &Doc, k: usize) -> (r: Result<Metadata, ReadError>)
        requires
            k < doc.spec_nodes().len(),
        ensures
            r is Ok <==> metadata_ok(doc.spec_nodes(), k as int),
            r matches Ok(x) ==> metadata_matches(x, doc.spec_nodes(), k as int),
            r matches Err(e) ==> e is MissingField || (e is Xml && !texts_readable(doc.spec_nodes())),
    {
        let group_id = match doc.last_child(k, "groupId") {
            Some(c) => Some(GroupId { value: doc.text(c)? }),
            None => None,
        };
        let group_id = required(group_id, "Metadata", "group_id")?;
        let artifact_id = match doc.last_child(k, "artifactId") {
            Some(c) => Some(ArtifactId { value: doc.text(c)? }),
            None => None,
        };
        let artifact_id = required(artifact_id, "Metadata", "artifact_id")?;
        let version = match doc.last_child(k, "version") {
            Some(c) => Some(Version { value: doc.text(c)? }),
            None => None,
        };
        let version = required(version, "Metadata", "version")?;
        let versioning = match doc.last_child(k, "versioning") {
            Some(c) => Some(Versioning::read(doc, c)?),
            None => None,
        };
        let versioning = required(versioning, "Metadata", "versioning")?;
        Ok(Metadata { group_id, artifact_id, version, versioning })
    }

    /// Reads a metadata document from its XML text.
    pub fn from_str(text: &str) -> (r: Result<Metadata, ReadError>)
        ensures
            r is Ok <==> (doc_of(text@) matches Some(d) && d[0].name == "metadata"@ && metadata_ok(d, 0)),
            r matches Ok(x) ==> metadata_matches(x, doc_of(text@)->Some_0, 0),
            xml_tokens(text@) is None ==> r matches Err(ReadError::Xml(_)),
            xml_tokens(text@) is Some && !(doc_of(text@) matches Some(d) && d[0].name == "metadata"@)
                ==> r matches Err(ReadError::Malformed),
            (doc_of(text@) matches Some(d) && d[0].name == "metadata"@ && texts_readable(d) && !metadata_ok(d, 0))
                ==> r matches Err(ReadError::MissingField { .. }),
    {
        let doc = Doc::parse(text, "metadata")?;
        Metadata::read(&doc, 0)
    }
}

/// When a snapshot build was made, as `yyyyMMdd.HHmmss`.
#[derive(Debug)]
pub struct Timestamp {
    pub value: String,
}

/// The number of a snapshot build.
#[derive(Debug)]
pub struct BuildNumber {
    pub value: String,
}

/// When the metadata last changed.
#[derive(Debug)]
pub struct LastUpdated {
    pub value: String,
}

/// When a file last changed.
#[derive(Debug)]
pub struct Updated {
    pub value: String,
}

/// The extension of a file.
#[derive(Debug)]
pub struct Extension {
    pub value: String,
}

/// The classifier of a file.
#[derive(Debug)]
pub struct Classifier {
    pub value: String,
}

/// The concrete version that a file was published under.
#[derive(Debug)]
pub struct Value {
    pub value: String,
}

/// The versioning section: the latest snapshot build and the files it holds.
#[derive(Debug)]
pub struct Versioning {
    pub snapshot: Snapshot,
    pub last_updated: LastUpdated,
    pub snapshot_versions: SnapshotVersions,
}

/// Element `k` of `d` holds what a `Versioning` needs.
pub open spec fn versioning_ok(d: Seq<GNode>, k: int) -> bool {
    &&& last_child(d, k, "snapshot"@) is Some && snapshot_ok(d, last_child(d, k, "snapshot"@)->Some_0)
    &&& last_child(d, k, "lastUpdated"@) is Some && text_value(d, last_child(d, k, "lastUpdated"@)->Some_0) is Some
    &&& last_child(d, k, "snapshotVersions"@) is Some && snapshot_versions_ok(d, last_child(d, k, "snapshotVersions"@)->Some_0)
}

/// `x` holds the values of element `k` of `d`.
pub open spec fn versioning_matches(x: Versioning, d: Seq<GNode>, k: int) -> bool {
    &&& snapshot_matches(x.snapshot, d, last_child(d, k, "snapshot"@)->Some_0)
    &&& Some(x.last_updated.value@) == text_value(d, last_child(d, k, "lastUpdated"@)->Some_0)
    &&& snapshot_versions_matches(x.snapshot_versions, d, last_child(d, k, "snapshotVersions"@)->Some_0)
}

impl Versioning {
    /// Reads element `k` of a document as a `Versioning`; other children are ignored.
    pub(crate) fn read(doc: &Doc, k: usize) -> (r: Result<Versioning, ReadError>)
        requires
            k < doc.spec_nodes().len(),
        ensures
            r is Ok <==> versioning_ok(doc.spec_nodes(), k as int),
            r matches Ok(x) ==> versioning_matches(x, doc.spec_nodes(), k as int),
            r matches Err(e) ==> e is MissingField || (e is Xml && !texts_readable(doc.spec_nodes())),
    {
        let snapshot = match doc.last_child(k, "snapshot") {
            Some(c) => Some(Snapshot::read(doc, c)?),
            None => None,
        };
        let snapshot = required(snapshot, "Versioning", "snapshot")?;
        let last_updated = match doc.last_child(k, "lastUpdated") {
            Some(c) => Some(LastUpdated { value: doc.text(c)? }),
            None => None,
        };
        let last_updated = required(last_updated, "Versioning", "last_updated")?;
        let snapshot_versions = match doc.last_child(k, "snapshotVersions") {
            Some(c) => Some(SnapshotVersions::read(doc, c)?),
            None => None,
        };
        let snapshot_versions = required(snapshot_versions, "Versioning", "snapshot_versions")?;
        Ok(Versioning { snapshot, last_updated, snapshot_versions })
    }
}

/// The latest snapshot build: when it was made and its number.
#[derive(Debug)]
pub struct Snapshot {
    pub timestamp: Timestamp,
    pub build_number: BuildNumber,
}

/// Element `k` of `d` holds what a `Snapshot` needs.
pub open spec fn snapshot_ok(d: Seq<GNode>, k: int) -> bool {
    &&& last_child(d, k, "timestamp"@) is Some && text_value(d, last_child(d, k, "timestamp"@)->Some_0) is Some
    &&& last_child(d, k, "buildNumber"@) is Some && text_value(d, last_child(d, k, "buildNumber"@)->Some_0) is Some
}

/// `x` holds the values of element `k` of `d`.
pub open spec fn snapshot_matches(x: Snapshot, d: Seq<GNode>, k: int) -> bool {
    &&& Some(x.timestamp.value@) == text_value(d, last_child(d, k, "timestamp"@)->Some_0)
    &&& Some(x.build_number.value@) == text_value(d, last_child(d, k, "buildNumber"@)->Some_0)
}

impl Snapshot {
    /// Reads element `k` of a document as a `Snapshot`; other children are ignored.
    pub(crate) fn read(doc: &Doc, k: usize) -> (r: Result<Snapshot, ReadError>)
        requires
            k < doc.spec_nodes().len(),
        ensures
            r is Ok <==> snapshot_ok(doc.spec_nodes(), k as int),
            r matches Ok(x) ==> snapshot_matches(x, doc.spec_nodes(), k as int),
            r matches Err(e) ==> e is MissingField || (e is Xml && !texts_readable(doc.spec_nodes())),
    {
        let timestamp = match doc.last_child(k, "timestamp") {
            Some(c) => Some(Timestamp { value: doc.text(c)? }),
            None => None,
        };
        let timestamp = required(timestamp, "Snapshot", "timestamp")?;
        let build_number = match doc.last_child(k, "buildNumber") {
            Some(c) => Some(BuildNumber { value: doc.text(c)? }),
            None => None,
        };
        let build_number = required(build_number, "Snapshot", "build_number")?;
        Ok(Snapshot { timestamp, build_number })
    }
}

/// The files of the latest snapshot build.
#[derive(Debug)]
pub struct SnapshotVersions {
    pub snapshot_versions: Vec<SnapshotVersion>,
}

/// Element `k` of `d` holds what a `SnapshotVersions` needs.
pub open spec fn snapshot_versions_ok(d: Seq<GNode>, k: int) -> bool {
    &&& forall|j: int| 0 <= j < child_indices(d, k, "snapshotVersion"@).len() ==> #[trigger] snapshot_version_ok(d, child_indices(d, k, "snapshotVersion"@)[j])
}

/// `x` holds the values of element `k` of `d`.
pub open spec fn snapshot_versions_matches(x: SnapshotVersions, d: Seq<GNode>, k: int) -> bool {
    &&& x.snapshot_versions@.len() == child_indices(d, k, "snapshotVersion"@).len()
    &&& forall|j: int| 0 <= j < child_indices(d, k, "snapshotVersion"@).len() ==> #[trigger] snapshot_version_matches(x.snapshot_versions@[j], d, child_indices(d, k, "snapshotVersion"@)[j])
}

impl SnapshotVersions {
    /// Reads element `k` of a document as a `SnapshotVersions`; other children are ignored.
    pub(crate) fn read(doc: &Doc, k: usize) -> (r: Result<SnapshotVersions, ReadError>)
        requires
            k < doc.spec_nodes().len(),
        ensures
            r is Ok <==> snapshot_versions_ok(doc.spec_nodes(), k as int),
            r matches Ok(x) ==> snapshot_versions_matches(x, doc.spec_nodes(), k as int),
            r matches Err(e) ==> e is MissingField || (e is Xml && !texts_readable(doc.spec_nodes())),
    {
        let cs = doc.children(k, "snapshotVersion");
        let ghost ci = child_indices(doc.spec_nodes(), k as int, "snapshotVersion"@);
        let mut snapshot_versions: Vec<SnapshotVersion> = Vec::new();
        let mut i: usize = 0;
        while i < cs.len()
            invariant
                k < doc.spec_nodes().len(),
                ci == child_indices(doc.spec_nodes(), k as int, "snapshotVersion"@),
                cs@.len() == ci.len(),
                forall|j: int| 0 <= j < cs@.len() ==> #[trigger] cs@[j] as int == ci[j] && cs@[j] < doc.spec_nodes().len(),
                i <= cs@.len(),
                snapshot_versions@.len() == i,
                forall|j: int| 0 <= j < i ==> #[trigger] snapshot_version_ok(doc.spec_nodes(), ci[j]),
                forall|j: int| 0 <= j < i ==> #[trigger] snapshot_version_matches(snapshot_versions@[j], doc.spec_nodes(), ci[j]),
            decreases cs@.len() - i,
        {
            match SnapshotVersion::read(doc, cs[i]) {
                Ok(x) => snapshot_versions.push(x),
                Err(e) => {
                    assert(!snapshot_version_ok(doc.spec_nodes(), ci[i as int]));
                    return Err(e);
                },
            }
            i = i + 1;
        }
        Ok(SnapshotVersions { snapshot_versions })
    }
}

/// One file of a snapshot build.
#[derive(Debug)]
pub struct SnapshotVersion {
    pub classifier: Option<Classifier>,
    pub extension: Extension,
    pub value: Value,
    pub updated: Updated,
}

/// Element `k` of `d` holds what a `SnapshotVersion` needs.
pub open spec fn snapshot_version_ok(d: Seq<GNode>, k: int) -> bool {
    &&& last_child(d, k, "classifier"@) is Some ==> text_value(d, last_child(d, k, "classifier"@)->Some_0) is Some
    &&& last_child(d, k, "extension"@) is Some && text_value(d, last_child(d, k, "extension"@)->Some_0) is Some
    &&& last_child(d, k, "value"@) is Some && text_value(d, last_child(d, k, "value"@)->Some_0) is Some
    &&& last_child(d, k, "updated"@) is Some && text_value(d, last_child(d, k, "updated"@)->Some_0) is Some
}

/// `x` holds the values of element `k` of `d`.
pub open spec fn snapshot_version_matches(x: SnapshotVersion, d: Seq<GNode>, k: int) -> bool {
    &&& x.classifier is Some <==> last_child(d, k, "classifier"@) is Some
    &&& x.classifier is Some ==> Some(x.classifier->Some_0.value@) == text_value(d, last_child(d, k, "classifier"@)->Some_0)
    &&& Some(x.extension.value@) == text_value(d, last_child(d, k, "extension"@)->Some_0)
    &&& Some(x.value.value@) == text_value(d, last_child(d, k, "value"@)->Some_0)
    &&& Some(x.updated.value@) == text_value(d, last_child(d, k, "updated"@)->Some_0)
}

impl SnapshotVersion {
    /// Reads element `k` of a document as a `SnapshotVersion`; other children are ignored.
    pub(crate) fn read(doc: &Doc, k: usize) -> (r: Result<SnapshotVersion, ReadError>)
        requires
            k < doc.spec_nodes().len(),
        ensures
            r is Ok <==> snapshot_version_ok(doc.spec_nodes(), k as int),
            r matches Ok(x) ==> snapshot_version_matches(x, doc.spec_nodes(), k as int),
            r matches Err(e) ==> e is MissingField || (e is Xml && !texts_readable(doc.spec_nodes())),
    {
        let classifier = match doc.last_child(k, "classifier") {
            Some(c) => Some(Classifier { value: doc.text(c)? }),
            None => None,
        };
        let extension = match doc.last_child(k, "extension") {
            Some(c) => Some(Extension { value: doc.text(c)? }),
            None => None,
        };
        let extension = required(extension, "SnapshotVersion", "extension")?;
        let value = match doc.last_child(k, "value") {
            Some(c) => Some(Value { value: doc.text(c)? }),
            None => None,
        };
        let value = required(value, "SnapshotVersion", "value")?;
        let updated = match doc.last_child(k, "updated") {
            Some(c) => Some(Updated { value: doc.text(c)? }),
            None => None,
        };
        let updated = required(updated, "SnapshotVersion", "updated")?;
        Ok(SnapshotVersion { classifier, extension, value, updated })
    }
}

} // verus!
