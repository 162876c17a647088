//! Where a repository publishes an artifact's files, and how a snapshot
//! version is expanded to the timestamped build it stands for.
use vstd::prelude::*;

use crate::cache::{file_name, make_file_name};
use crate::maven::metadata::{metadata_reads, snapshot_build_number, snapshot_timestamp, Metadata};
use crate::maven::xml::doc_of;
use crate::maven::xml::ReadError;
use crate::project::Artifact;
use crate::text::joined;

verus! {

/// The URL of an artifact's file published under `version` in `repo`.
pub open spec fn remote_file(repo: Seq<char>, a: Artifact, version: Seq<char>, ext: Seq<char>) -> Seq<char> {
    repo + "/"@ + a.path@ + "/"@ + file_name(a, version, ext)
}

/// The URL of an artifact's snapshot metadata in `repo`.
pub open spec fn metadata_url(repo: Seq<char>, a: Artifact) -> Seq<char> {
    repo + "/"@ + a.path@ + "/maven-metadata.xml"@
}

/// A snapshot build as named in file names: `<timestamp>-<buildNumber>`.
pub open spec fn build_label(timestamp: Seq<char>, build_number: Seq<char>) -> Seq<char> {
    timestamp + "-"@ + build_number
}

/// A snapshot version with its trailing `SNAPSHOT` replaced by a build label.
pub open spec fn snapshot_version(version: Seq<char>, label: Seq<char>) -> Seq<char> {
    version.subrange(0, version.len() - 8) + label
}

/// The version to ask a repository for: a snapshot's build where the
/// repository's metadata named one, else the declared version.
pub open spec fn requested_version(a: Artifact, label: Option<Seq<char>>) -> Seq<char> {
    match label {
        Some(l) => if a.spec_is_snapshot() {
            snapshot_version(a.version@, l)
        } else {
            a.version@
        },
        None => a.version@,
    }
}

pub fn make_remote_file(repo: &str, a: &Artifact, version: &str, ext: &str) -> (r: String)
    ensures
        r@ == remote_file(repo@, *a, version@, ext@),
{
    let s = joined(repo, "/");
    let s = joined(s.as_str(), a.path.as_str());
    let s = joined(s.as_str(), "/");
    let name = make_file_name(a, version, ext);
    let r = joined(s.as_str(), name.as_str());
    assert(r@ =~= remote_file(repo@, *a, version@, ext@));
    r
}

pub fn make_metadata_url(repo: &str, a: &Artifact) -> (r: String)
    ensures
        r@ == metadata_url(repo@, *a),
{
    let s = joined(repo, "/");
    let s = joined(s.as_str(), a.path.as_str());
    joined(s.as_str(), "/maven-metadata.xml")
}

/// The build label that a snapshot metadata document names.
pub fn snapshot_label(metadata: &Metadata) -> (r: String)
    ensures
        r@ == build_label(
            metadata.versioning.snapshot.timestamp.value@,
            metadata.versioning.snapshot.build_number.value@,
        ),
{
    let s = joined(metadata.versioning.snapshot.timestamp.value.as_str(), "-");
    joined(s.as_str(), metadata.versioning.snapshot.build_number.value.as_str())
}

/// Reads a snapshot metadata document and gives the build label it names:
/// `<timestamp>-<buildNumber>` of its latest snapshot.
pub fn load_snapshot_build_nr(metadata_xml: &str) -> (r: Result<String, ReadError>)
    ensures
        r is Ok <==> metadata_reads(metadata_xml@),
        r matches Ok(l) ==> l@ == build_label(
            snapshot_timestamp(doc_of(metadata_xml@)->Some_0),
            snapshot_build_number(doc_of(metadata_xml@)->Some_0),
        ),
{
    match Metadata::from_str(metadata_xml) {
        Ok(m) => Ok(snapshot_label(&m)),
        Err(e) => Err(e),
    }
}

/// The version to ask a repository for (see `requested_version`).
pub fn resolve_version(artifact: &Artifact, label: Option<&str>) -> (r: String)
    ensures
        r@ == requested_version(*artifact, match label {
            Some(l) => Some(l@),
            None => None,
        }),
{
    match label {
        Some(l) => if artifact.is_snapshot() {
            proof {
                reveal_strlit("-SNAPSHOT");
            }
            let n = artifact.version.unicode_len();
            let stem = artifact.version.as_str().substring_char(0, n - 8);
            joined(stem, l)
        } else {
            artifact.version.clone()
        },
        None => artifact.version.clone(),
    }
}

} // verus!
