//! Where an artifact's files live in the local cache:
//! `<root>/<group/with/slashes>/<name>/<version>/<name>-<version>.<ext>`.
use vstd::prelude::*;

use crate::project::Artifact;
use crate::text::joined;

verus! {

/// The file name of an artifact's file published under `version`.
pub open spec fn file_name(a: Artifact, version: Seq<char>, ext: Seq<char>) -> Seq<char> {
    a.name@ + "-"@ + version + "."@ + ext
}

/// The cache directory of an artifact.
pub open spec fn artifact_dir(root: Seq<char>, a: Artifact) -> Seq<char> {
    root + "/"@ + a.path@
}

/// The cached file of an artifact with extension `ext`, under its declared version.
pub open spec fn artifact_file(root: Seq<char>, a: Artifact, ext: Seq<char>) -> Seq<char> {
    artifact_dir(root, a) + "/"@ + file_name(a, a.version@, ext)
}

/// The checksum sidecar that accompanies a file.
pub open spec fn sidecar_of(file: Seq<char>) -> Seq<char> {
    file + ".sha1"@
}

/// The cached snapshot metadata of an artifact.
pub open spec fn metadata_file(root: Seq<char>, a: Artifact) -> Seq<char> {
    artifact_dir(root, a) + "/maven-metadata.xml"@
}

/// `name-version.ext`.
pub fn make_file_name(a: &Artifact, version: &str, ext: &str) -> (r: String)
    ensures
        r@ == file_name(*a, version@, ext@),
{
    let s = joined(a.name.as_str(), "-");
    let s = joined(s.as_str(), version);
    let s = joined(s.as_str(), ".");
    joined(s.as_str(), ext)
}

pub fn make_artifact_dir(root: &str, a: &Artifact) -> (r: String)
    ensures
        r@ == artifact_dir(root@, *a),
{
    let s = joined(root, "/");
    joined(s.as_str(), a.path.as_str())
}

pub fn make_artifact_file(root: &str, a: &Artifact, ext: &str) -> (r: String)
    ensures
        r@ == artifact_file(root@, *a, ext@),
{
    let dir = make_artifact_dir(root, a);
    let s = joined(dir.as_str(), "/");
    let name = make_file_name(a, a.version.as_str(), ext);
    let r = joined(s.as_str(), name.as_str());
    assert(r@ =~= artifact_file(root@, *a, ext@));
    r
}

pub fn make_sidecar(file: &str) -> (r: String)
    ensures
        r@ == sidecar_of(file@),
{
    joined(file, ".sha1")
}

pub fn make_metadata_file(root: &str, a: &Artifact) -> (r: String)
    ensures
        r@ == metadata_file(root@, *a),
{
    let dir = make_artifact_dir(root, a);
    joined(dir.as_str(), "/maven-metadata.xml")
}

} // verus!
