//! The artifact resolver: for each declared artifact, and depth-first for each
//! of its dependencies, it finds the descriptor (POM) in the cache or in the
//! first repository that has it, verifies it against its checksum sidecar,
//! resolves the chain of parent descriptors, fetches and verifies the jar, and
//! goes on with the dependencies.
//!
//! The resolver does no I/O itself. It is a state machine: each step takes the
//! outcome of the previous request (an `Event`) and answers with the next
//! request (an `Action`), until it answers `Finished` or `Failed`.
use vstd::prelude::*;

use crate::cache::{
    artifact_dir, artifact_file, make_artifact_dir, make_artifact_file, make_metadata_file,
    make_sidecar, metadata_file, sidecar_of,
};
use crate::checksum::{check_sidecar, sidecar_verdict, Verdict};
use crate::maven::metadata::{metadata_reads, snapshot_build_number, snapshot_timestamp};
use crate::maven::pom::{pom_matches, pom_ok, Dependency};
use crate::maven::xml::{doc_of, last_child, text_value};
use crate::maven::pom::Pom;
use crate::maven::pom_view::{declared_dependencies, effective_version, first_unmanaged, PomView, ViewError};
use crate::maven::xml::ReadError;
use crate::project::{artifact_path, Artifact, Project, DEFAULT_REPOSITORY};
use crate::remote::{
    load_snapshot_build_nr, make_metadata_url, make_remote_file, metadata_url, remote_file,
    requested_version, resolve_version, build_label,
};
use vstd::utf8::encode_utf8;

verus! {

/// A request to the world outside the resolver.
#[derive(Debug)]
pub enum Action {
    /// Create the directory and its missing ancestors; answer `Done`.
    CreateDir { path: String },
    /// Answer `Exists` with whether the file is there.
    CheckExists { path: String },
    /// Answer `Text` with the file's content.
    ReadText { path: String },
    /// Answer `Bytes` with the file's content.
    ReadBytes { path: String },
    /// Answer `Text` with the body, or `NotFound`.
    FetchText { url: String },
    /// Answer `Bytes` with the body, or `NotFound`.
    FetchBytes { url: String },
    /// Create or overwrite the file; answer `Done`.
    WriteText { path: String, text: String },
    /// Create or overwrite the file; answer `Done`.
    WriteBytes { path: String, bytes: Vec<u8> },
    /// Every declared artifact is resolved.
    Finished,
    /// The run stops on this error.
    Failed { error: ResolveError },
}

/// The outcome of the last request.
#[derive(Debug)]
pub enum Event {
    Done,
    Exists(bool),
    Text(String),
    Bytes(Vec<u8>),
    /// The repository does not have the resource.
    NotFound,
    /// The file system or the transport failed.
    Failed(String),
}

/// Why a run stopped.
#[derive(Debug)]
pub enum ResolveError {
    /// A file does not match the checksum its sidecar publishes.
    ChecksumInvalid { resource: String },
    /// A sidecar does not hold hexadecimal text.
    ChecksumUnreadable { resource: String },
    /// A descriptor or metadata document could not be read.
    Parse { resource: String, error: ReadError },
    /// The file system or the transport failed.
    Io { message: String },
    /// No repository has the descriptor.
    ExhaustedRepositories { artifact: String },
    /// A dependency has no version and no ancestor manages one.
    MissingManagedVersion { group: String, name: String },
    /// The repository that served the descriptor does not have the jar.
    JarNotFound { url: String },
    /// An event that does not answer the last request.
    UnexpectedEvent,
}

/// Where the resolution of one artifact stands: the request it awaits.
#[derive(Debug, PartialEq, Eq, Structural, Clone, Copy)]
pub enum Stage {
    Start,
    PomCached,
    PomRead,
    Metadata,
    MetadataSaved,
    PomFetch,
    PomSaved,
    PomSumCached,
    PomSumRead,
    PomSumFetch,
    PomSumSaved,
    AwaitParent,
    JarCached,
    JarFetch,
    JarSaved,
    JarSumCached,
    JarSumRead,
    JarSumFetch,
    JarSumSaved,
    Expanding,
    Resolved,
}

/// The stages that a run reaches while the cache answers every lookup.
pub open spec fn offline_stage(s: Stage) -> bool {
    match s {
        Stage::Start | Stage::PomCached | Stage::PomRead | Stage::PomSumCached | Stage::PomSumRead
        | Stage::AwaitParent | Stage::JarCached | Stage::Expanding | Stage::Resolved => true,
        _ => false,
    }
}

/// A request to a repository.
pub open spec fn is_fetch(a: Action) -> bool {
    a is FetchText || a is FetchBytes
}

/// A request that writes a file.
pub open spec fn is_write(a: Action) -> bool {
    a is WriteText || a is WriteBytes
}

/// Where the artifact being resolved stands: the stage (the request it
/// awaits) and what it has gathered so far.
pub struct Progress {
    pub artifact: Artifact,
    /// A parent descriptor, of which only the POM is resolved.
    pub descriptor_only: bool,
    pub stage: Stage,
    /// The repository being searched.
    pub repo: int,
    /// The version asked of that repository.
    pub version: Seq<char>,
    /// The repository that served the descriptor; `None` for one from the cache.
    pub found_in: Option<int>,
    pub metadata: Seq<char>,
    pub pom_text: Seq<char>,
    /// The sidecar content fetched last.
    pub checksum: Seq<u8>,
    pub jar: Seq<u8>,
    pub jar_url: Seq<char>,
    /// The parsed descriptor, while its parent is resolved.
    pub pom: Option<Pom>,
    /// The view of the descriptor, once its ancestors are resolved.
    pub view: Option<PomView>,
    /// The dependencies being resolved, and the index of the current one.
    pub deps: Seq<Artifact>,
    pub next: int,
}

/// `deps` are the dependencies that the view declares, in declaration order,
/// each with its effective version.
pub open spec fn dependencies_of(v: PomView, deps: Seq<Artifact>) -> bool {
    let declared = declared_dependencies(v.spec_pom());
    &&& deps.len() == declared.len()
    &&& forall|i: int| 0 <= i < deps.len() ==> {
        &&& (#[trigger] deps[i]).group@ == declared[i].group_id.value@
        &&& deps[i].name@ == declared[i].artifact_id.value@
        &&& effective_version(declared[i], v.ancestors()) == Some(deps[i].version@)
        &&& deps[i].wf()
    }
}

/// The artifact `inner` is in progress on behalf of `outer`: either it is the
/// parent descriptor that `outer` waits for before building its view, or it
/// is the dependency of `outer` that is due, in declaration order.
pub open spec fn follows(outer: Progress, inner: Progress) -> bool {
    match outer.stage {
        Stage::AwaitParent => inner.descriptor_only && (parent_of(outer.pom_text) matches Some((g, n, v))
            && inner.artifact.group@ == g && inner.artifact.name@ == n && inner.artifact.version@ == v),
        Stage::Expanding => !inner.descriptor_only && (outer.view matches Some(view) && dependencies_of(
            view,
            outer.deps,
        )) && 0 <= outer.next < outer.deps.len() && inner.artifact == outer.deps[outer.next],
        _ => false,
    }
}

/// Each artifact in progress is there on behalf of the one below it.
pub open spec fn nested(s: Seq<Progress>) -> bool {
    forall|i: int| 0 <= i < s.len() - 1 ==> #[trigger] follows(s[i], s[i + 1])
}

/// Where the jar is fetched from: beside the descriptor, in the repository
/// and under the version it was found under; for a descriptor from the cache,
/// in the default repository under the declared version.
pub open spec fn jar_location(repos: Seq<String>, p: Progress) -> Seq<char> {
    match p.found_in {
        Some(i) => if 0 <= i < repos.len() {
            remote_file(repos[i]@, p.artifact, p.version, "jar"@)
        } else {
            remote_file(DEFAULT_REPOSITORY@, p.artifact, p.artifact.version@, "jar"@)
        },
        None => remote_file(DEFAULT_REPOSITORY@, p.artifact, p.artifact.version@, "jar"@),
    }
}

/// The version a snapshot's metadata text expands it to.
pub open spec fn snapshot_request(a: Artifact, metadata: Seq<char>) -> Seq<char> {
    let d = doc_of(metadata)->Some_0;
    requested_version(a, Some(build_label(snapshot_timestamp(d), snapshot_build_number(d))))
}

/// The descriptor text reads as a POM.
pub open spec fn descriptor_reads(text: Seq<char>) -> bool {
    doc_of(text) matches Some(d) && d[0].name == "project"@ && pom_ok(d, 0)
}

/// The coordinates (group, name, version) of the parent that a descriptor
/// text names, if it reads and names one.
pub open spec fn parent_of(text: Seq<char>) -> Option<(Seq<char>, Seq<char>, Seq<char>)> {
    let d = doc_of(text)->Some_0;
    if descriptor_reads(text) && last_child(d, 0, "parent"@) is Some {
        let k = last_child(d, 0, "parent"@)->Some_0;
        Some((
            text_value(d, last_child(d, k, "groupId"@)->Some_0)->Some_0,
            text_value(d, last_child(d, k, "artifactId"@)->Some_0)->Some_0,
            text_value(d, last_child(d, k, "version"@)->Some_0)->Some_0,
        ))
    } else {
        None
    }
}

/// What a resolution error says, as plain values.
pub enum ErrorView {
    ChecksumInvalid(Seq<char>),
    ChecksumUnreadable(Seq<char>),
    Parse(Seq<char>),
    Io(Seq<char>),
    ExhaustedRepositories(Seq<char>),
    MissingManagedVersion(Seq<char>, Seq<char>),
    JarNotFound(Seq<char>),
    UnexpectedEvent,
}

/// What an action asks, as plain values.
pub enum Req {
    CreateDir(Seq<char>),
    CheckExists(Seq<char>),
    ReadText(Seq<char>),
    ReadBytes(Seq<char>),
    FetchText(Seq<char>),
    FetchBytes(Seq<char>),
    WriteText(Seq<char>, Seq<char>),
    WriteBytes(Seq<char>, Seq<u8>),
    Finished,
    Failed(ErrorView),
}

pub open spec fn error_view(e: ResolveError) -> ErrorView {
    match e {
        ResolveError::ChecksumInvalid { resource } => ErrorView::ChecksumInvalid(resource@),
        ResolveError::ChecksumUnreadable { resource } => ErrorView::ChecksumUnreadable(resource@),
        ResolveError::Parse { resource, .. } => ErrorView::Parse(resource@),
        ResolveError::Io { message } => ErrorView::Io(message@),
        ResolveError::ExhaustedRepositories { artifact } => ErrorView::ExhaustedRepositories(artifact@),
        ResolveError::MissingManagedVersion { group, name } => ErrorView::MissingManagedVersion(group@, name@),
        ResolveError::JarNotFound { url } => ErrorView::JarNotFound(url@),
        ResolveError::UnexpectedEvent => ErrorView::UnexpectedEvent,
    }
}

pub open spec fn req(a: Action) -> Req {
    match a {
        Action::CreateDir { path } => Req::CreateDir(path@),
        Action::CheckExists { path } => Req::CheckExists(path@),
        Action::ReadText { path } => Req::ReadText(path@),
        Action::ReadBytes { path } => Req::ReadBytes(path@),
        Action::FetchText { url } => Req::FetchText(url@),
        Action::FetchBytes { url } => Req::FetchBytes(url@),
        Action::WriteText { path, text } => Req::WriteText(path@, text@),
        Action::WriteBytes { path, bytes } => Req::WriteBytes(path@, bytes@),
        Action::Finished => Req::Finished,
        Action::Failed { error } => Req::Failed(error_view(error)),
    }
}

/// How the run stands.
#[derive(PartialEq, Eq, Structural, Clone, Copy)]
pub enum Status {
    Running,
    Succeeded,
    Failed,
}

/// What one answer does to the artifact at the top of the stack: it now
/// awaits a request; it waits for a new artifact (its parent or a
/// dependency), which makes the request; it is done; or the run fails.
pub enum Move {
    Wait(Progress, Req),
    Spawn(Progress, Progress, Req),
    Complete(Progress),
    Fail(ErrorView),
}

/// The progress a move leaves the artifact at.
pub open spec fn moved(m: Move) -> Progress {
    match m {
        Move::Wait(q, _) => q,
        Move::Spawn(q, _, _) => q,
        Move::Complete(q) => q,
        Move::Fail(_) => arbitrary(),
    }
}

/// An artifact whose resolution starts.
pub open spec fn fresh(artifact: Artifact, descriptor_only: bool) -> Progress {
    Progress {
        artifact,
        descriptor_only,
        stage: Stage::Start,
        repo: 0,
        version: Seq::empty(),
        found_in: None,
        metadata: Seq::empty(),
        pom_text: Seq::empty(),
        checksum: Seq::empty(),
        jar: Seq::empty(),
        jar_url: Seq::empty(),
        pom: None,
        view: None,
        deps: Seq::empty(),
        next: 0,
    }
}

pub open spec fn unexpected() -> Move {
    Move::Fail(ErrorView::UnexpectedEvent)
}

/// Asking repository `i` for the descriptor: its snapshot metadata first for
/// a snapshot, else the POM under the declared version; past the last
/// repository, the run fails.
pub open spec fn search_move(repos: Seq<String>, p: Progress, i: int) -> Move {
    let a = p.artifact;
    if i >= repos.len() {
        Move::Fail(ErrorView::ExhaustedRepositories(a.path@))
    } else if a.spec_is_snapshot() {
        Move::Wait(Progress { stage: Stage::Metadata, repo: i, ..p }, Req::FetchText(metadata_url(repos[i]@, a)))
    } else {
        Move::Wait(
            Progress { stage: Stage::PomFetch, repo: i, version: a.version@, ..p },
            Req::FetchText(remote_file(repos[i]@, a, a.version@, "pom"@)),
        )
    }
}

/// Asking the repository being searched for the POM under `p.version`.
pub open spec fn fetch_pom_move(repos: Seq<String>, p: Progress) -> Move {
    if 0 <= p.repo < repos.len() {
        Move::Wait(
            Progress { stage: Stage::PomFetch, ..p },
            Req::FetchText(remote_file(repos[p.repo]@, p.artifact, p.version, "pom"@)),
        )
    } else {
        unexpected()
    }
}

/// The view of a descriptor without a parent.
pub open spec fn plain_view(v: Option<PomView>, text: Seq<char>) -> bool {
    v matches Some(w) && w.ancestors() == Seq::<Pom>::empty() && pom_matches(w.spec_pom(), doc_of(text)->Some_0, 0)
}

/// Once its ancestors are resolved: a parent descriptor is done, any other
/// artifact asks whether its jar is cached.
pub open spec fn after_view_move(root: Seq<char>, q: Progress) -> Move {
    if q.descriptor_only {
        Move::Complete(Progress { stage: Stage::Resolved, ..q })
    } else {
        Move::Wait(Progress { stage: Stage::JarCached, ..q }, Req::CheckExists(artifact_file(root, q.artifact, "jar"@)))
    }
}

/// The next dependency starts with its cache directory; after the last one,
/// the artifact is done.
pub open spec fn next_child_move(root: Seq<char>, q: Progress) -> Move {
    if 0 <= q.next < q.deps.len() {
        Move::Spawn(q, fresh(q.deps[q.next], false), Req::CreateDir(artifact_dir(root, q.deps[q.next])))
    } else {
        Move::Complete(Progress { stage: Stage::Resolved, ..q })
    }
}

/// An accepted descriptor: one that does not read stops the run; one that
/// names a parent has the parent resolved first; otherwise the view is built.
pub open spec fn accept_move(root: Seq<char>, p: Progress, m: Move) -> bool {
    if !descriptor_reads(p.pom_text) {
        m == Move::Fail(ErrorView::Parse(p.artifact.path@))
    } else {
        match parent_of(p.pom_text) {
            Some((g, n, v)) => m matches Move::Spawn(q, c, r) && q == Progress { stage: Stage::AwaitParent, pom: q.pom, ..p }
                && (q.pom matches Some(x) && pom_matches(x, doc_of(p.pom_text)->Some_0, 0)) && c == fresh(
                c.artifact,
                true,
            ) && c.artifact.wf() && c.artifact.group@ == g && c.artifact.name@ == n && c.artifact.version@ == v
                && r == Req::CreateDir(root + "/"@ + artifact_path(g, n, v)),
            None => m == after_view_move(root, Progress { view: moved(m).view, ..p }) && plain_view(
                moved(m).view,
                p.pom_text,
            ),
        }
    }
}

/// The jar is in place: the effective dependencies are resolved in order;
/// the first one without a version stops the run.
pub open spec fn expand_move(root: Seq<char>, p: Progress, m: Move) -> bool {
    match p.view {
        None => m == unexpected(),
        Some(v) => {
            let declared = declared_dependencies(v.spec_pom());
            match first_unmanaged(declared, v.ancestors(), 0) {
                Some(i) => m == Move::Fail(
                    ErrorView::MissingManagedVersion(declared[i].group_id.value@, declared[i].artifact_id.value@),
                ),
                None => dependencies_of(v, moved(m).deps) && m == next_child_move(
                    root,
                    Progress { deps: moved(m).deps, next: 0, stage: Stage::Expanding, ..p },
                ),
            }
        },
    }
}

/// What a sidecar's verdict on the descriptor leads to.
pub open spec fn pom_verdict_move(root: Seq<char>, p: Progress, v: Verdict, m: Move) -> bool {
    match v {
        Verdict::Valid => accept_move(root, p, m),
        Verdict::Invalid => m == Move::Fail(ErrorView::ChecksumInvalid(p.artifact.path@)),
        Verdict::Unreadable => m == Move::Fail(ErrorView::ChecksumUnreadable(p.artifact.path@)),
    }
}

/// What a sidecar's verdict on the jar leads to.
pub open spec fn jar_verdict_move(root: Seq<char>, p: Progress, v: Verdict, m: Move) -> bool {
    match v {
        Verdict::Valid => expand_move(root, p, m),
        Verdict::Invalid => m == Move::Fail(ErrorView::ChecksumInvalid(p.jar_url)),
        Verdict::Unreadable => m == Move::Fail(ErrorView::ChecksumUnreadable(p.jar_url)),
    }
}

/// The move of the artifact at `p` on the answer `e`, with the cache below
/// `root` and the repositories `repos`.
pub open spec fn frame_move(root: Seq<char>, repos: Seq<String>, p: Progress, e: Event, m: Move) -> bool {
    let a = p.artifact;
    let pom = artifact_file(root, a, "pom"@);
    let jar = artifact_file(root, a, "jar"@);
    if e is Failed {
        m == Move::Fail(ErrorView::Io(e->Failed_0@))
    } else {
        match (p.stage, e) {
            (Stage::Start, Event::Done) => m == Move::Wait(Progress { stage: Stage::PomCached, ..p }, Req::CheckExists(pom)),
            (Stage::PomCached, Event::Exists(true)) => m == Move::Wait(Progress { stage: Stage::PomRead, ..p }, Req::ReadText(pom)),
            (Stage::PomCached, Event::Exists(false)) => m == search_move(repos, p, 0),
            (Stage::PomRead, Event::Text(t)) => m == Move::Wait(
                Progress { stage: Stage::PomSumCached, pom_text: t@, found_in: None, ..p },
                Req::CheckExists(sidecar_of(pom)),
            ),
            (Stage::Metadata, Event::Text(t)) => m == Move::Wait(
                Progress { stage: Stage::MetadataSaved, metadata: t@, ..p },
                Req::WriteText(metadata_file(root, a), t@),
            ),
            (Stage::Metadata, Event::NotFound) => m == fetch_pom_move(repos, Progress { version: a.version@, ..p }),
            (Stage::MetadataSaved, Event::Done) => if metadata_reads(p.metadata) {
                m == fetch_pom_move(repos, Progress { version: snapshot_request(a, p.metadata), ..p })
            } else {
                m == Move::Fail(ErrorView::Parse(metadata_file(root, a)))
            },
            (Stage::PomFetch, Event::Text(t)) => m == Move::Wait(
                Progress { stage: Stage::PomSaved, found_in: Some(p.repo), pom_text: t@, ..p },
                Req::WriteText(pom, t@),
            ),
            (Stage::PomFetch, Event::NotFound) => if 0 <= p.repo < repos.len() {
                m == search_move(repos, p, p.repo + 1)
            } else {
                m == unexpected()
            },
            (Stage::PomSaved, Event::Done) => m == Move::Wait(
                Progress { stage: Stage::PomSumCached, ..p },
                Req::CheckExists(sidecar_of(pom)),
            ),
            (Stage::PomSumCached, Event::Exists(true)) => m == Move::Wait(
                Progress { stage: Stage::PomSumRead, ..p },
                Req::ReadBytes(sidecar_of(pom)),
            ),
            (Stage::PomSumCached, Event::Exists(false)) => match p.found_in {
                Some(i) => if 0 <= i < repos.len() {
                    m == Move::Wait(
                        Progress { stage: Stage::PomSumFetch, ..p },
                        Req::FetchBytes(sidecar_of(remote_file(repos[i]@, a, p.version, "pom"@))),
                    )
                } else {
                    accept_move(root, p, m)
                },
                // Served from the cache without a sidecar: accepted unverified.
                None => accept_move(root, p, m),
            },
            (Stage::PomSumRead, Event::Bytes(b)) => pom_verdict_move(
                root,
                p,
                sidecar_verdict(encode_utf8(p.pom_text), b@),
                m,
            ),
            (Stage::PomSumFetch, Event::Bytes(b)) => m == Move::Wait(
                Progress { stage: Stage::PomSumSaved, checksum: b@, ..p },
                Req::WriteBytes(sidecar_of(pom), b@),
            ),
            // No sidecar anywhere: accepted unverified, and nothing written.
            (Stage::PomSumFetch, Event::NotFound) => accept_move(root, p, m),
            (Stage::PomSumSaved, Event::Done) => pom_verdict_move(
                root,
                p,
                sidecar_verdict(encode_utf8(p.pom_text), p.checksum),
                m,
            ),
            (Stage::JarCached, Event::Exists(true)) => expand_move(root, p, m),
            (Stage::JarCached, Event::Exists(false)) => m == Move::Wait(
                Progress { stage: Stage::JarFetch, jar_url: jar_location(repos, p), ..p },
                Req::FetchBytes(jar_location(repos, p)),
            ),
            (Stage::JarFetch, Event::Bytes(j)) => m == Move::Wait(
                Progress { stage: Stage::JarSaved, jar: j@, ..p },
                Req::WriteBytes(jar, j@),
            ),
            (Stage::JarFetch, Event::NotFound) => m == Move::Fail(ErrorView::JarNotFound(p.jar_url)),
            (Stage::JarSaved, Event::Done) => m == Move::Wait(
                Progress { stage: Stage::JarSumCached, ..p },
                Req::CheckExists(sidecar_of(jar)),
            ),
            (Stage::JarSumCached, Event::Exists(true)) => m == Move::Wait(
                Progress { stage: Stage::JarSumRead, ..p },
                Req::ReadBytes(sidecar_of(jar)),
            ),
            (Stage::JarSumCached, Event::Exists(false)) => m == Move::Wait(
                Progress { stage: Stage::JarSumFetch, ..p },
                Req::FetchBytes(sidecar_of(p.jar_url)),
            ),
            (Stage::JarSumRead, Event::Bytes(b)) => jar_verdict_move(root, p, sidecar_verdict(p.jar, b@), m),
            (Stage::JarSumFetch, Event::Bytes(b)) => m == Move::Wait(
                Progress { stage: Stage::JarSumSaved, checksum: b@, ..p },
                Req::WriteBytes(sidecar_of(jar), b@),
            ),
            // No sidecar anywhere: accepted unverified, and nothing written.
            (Stage::JarSumFetch, Event::NotFound) => expand_move(root, p, m),
            (Stage::JarSumSaved, Event::Done) => jar_verdict_move(root, p, sidecar_verdict(p.jar, p.checksum), m),
            _ => m == unexpected(),
        }
    }
}

/// What an artifact below the stack does once the one above it, `done`, is
/// resolved: one waiting for its parent builds its view over the parent's;
/// one resolving dependencies goes on with the next.
pub open spec fn resume_move(root: Seq<char>, below: Progress, done: Progress) -> Move {
    match below.stage {
        Stage::AwaitParent => match (below.pom, done.view) {
            (Some(x), Some(v)) => after_view_move(
                root,
                Progress { pom: None, view: Some(PomView::spec_new(x, Some(v))), ..below },
            ),
            _ => unexpected(),
        },
        Stage::Expanding => if 0 <= below.next < below.deps.len() {
            next_child_move(root, Progress { next: below.next + 1, ..below })
        } else {
            unexpected()
        },
        _ => unexpected(),
    }
}

/// Where a step leaves the run: the artifacts in progress, the index of the
/// declared artifact being resolved, what it asks, and how the run stands.
pub struct StepEnd {
    pub pending: Seq<Progress>,
    pub next_root: int,
    pub req: Req,
    pub status: Status,
}

/// The end of a step whose artifact made move `m`, with `s` below it.
pub open spec fn settled(root: Seq<char>, roots: Seq<Artifact>, s: Seq<Progress>, next_root: int, m: Move) -> StepEnd
    decreases s.len(), 1int,
{
    match m {
        Move::Wait(q, r) => StepEnd { pending: s.push(q), next_root, req: r, status: Status::Running },
        Move::Spawn(q, c, r) => StepEnd { pending: s.push(q).push(c), next_root, req: r, status: Status::Running },
        Move::Complete(q) => unwind(root, roots, s, next_root, q),
        Move::Fail(err) => StepEnd { pending: s, next_root, req: Req::Failed(err), status: Status::Failed },
    }
}

/// The end of a step in which `done` was resolved, with `s` below it: the
/// artifact below goes on; once a declared artifact is resolved, the next one
/// starts, and after the last one the run is finished.
pub open spec fn unwind(root: Seq<char>, roots: Seq<Artifact>, s: Seq<Progress>, next_root: int, done: Progress) -> StepEnd
    decreases s.len(), 0int,
{
    if s.len() == 0 {
        if 0 <= next_root + 1 < roots.len() {
            StepEnd {
                pending: seq![fresh(roots[next_root + 1], false)],
                next_root: next_root + 1,
                req: Req::CreateDir(artifact_dir(root, roots[next_root + 1])),
                status: Status::Running,
            }
        } else {
            StepEnd { pending: s, next_root, req: Req::Finished, status: Status::Succeeded }
        }
    } else {
        settled(root, roots, s.drop_last(), next_root, resume_move(root, s.last(), done))
    }
}

/// One step of a run, as `Loader::step` makes it: from the artifacts in
/// progress `pending`, the artifact on top makes a move that `frame_move`
/// allows for the answer `e`, and the run ends the step as `after`.
pub open spec fn step_allowed(
    root: Seq<char>,
    repos: Seq<String>,
    roots: Seq<Artifact>,
    pending: Seq<Progress>,
    next_root: int,
    status: Status,
    e: Event,
    after: StepEnd,
) -> bool {
    status == Status::Running && pending.len() > 0 ==> exists|m: Move| {
        &&& frame_move(root, repos, pending.last(), e, m)
        &&& after == settled(root, roots, pending.drop_last(), next_root, m)
    }
}

/// The resolution of one artifact in progress.
struct Frame {
    artifact: Artifact,
    /// A parent descriptor: only its POM is resolved.
    descriptor_only: bool,
    stage: Stage,
    /// The repository being searched.
    repo: usize,
    /// The version asked of the repository being searched.
    version: String,
    /// The repository that served the descriptor; `None` when it came from the cache.
    found_in: Option<usize>,
    metadata: String,
    pom_text: String,
    checksum: Vec<u8>,
    pom: Option<Pom>,
    view: Option<PomView>,
    jar: Vec<u8>,
    jar_url: String,
    deps: Vec<Artifact>,
    next: usize,
}

/// What handling an event did to the frame on top of the stack.
enum Outcome {
    /// The frame waits for the answer to `action`.
    Wait(Frame, Action),
    /// The frame waits for `child`, whose first request is `action`.
    Spawn(Frame, Frame, Action),
    /// The frame's artifact is resolved.
    Complete(Frame),
    Fail(ResolveError),
}


/// A resolution run over the artifacts a project declares.
pub struct Loader {
    cache_root: String,
    repositories: Vec<String>,
    roots: Vec<Artifact>,
    next_root: usize,
    stack: Vec<Frame>,
    status: Status,
}

spec fn outcome_offline(o: Outcome) -> bool {
    match o {
        Outcome::Wait(f, a) => offline_stage(f.stage) && !is_fetch(a) && !is_write(a),
        Outcome::Spawn(f, c, a) => offline_stage(f.stage) && offline_stage(c.stage) && !is_fetch(a) && !is_write(a),
        Outcome::Complete(f) => offline_stage(f.stage),
        Outcome::Fail(_) => true,
    }
}

spec fn progress(f: Frame) -> Progress {
    Progress {
        artifact: f.artifact,
        descriptor_only: f.descriptor_only,
        stage: f.stage,
        repo: f.repo as int,
        version: f.version@,
        found_in: match f.found_in {
            Some(i) => Some(i as int),
            None => None,
        },
        metadata: f.metadata@,
        pom_text: f.pom_text@,
        checksum: f.checksum@,
        jar: f.jar@,
        jar_url: f.jar_url@,
        pom: f.pom,
        view: f.view,
        deps: f.deps@,
        next: f.next as int,
    }
}

/// The frame handed on keeps the artifact it is about.
spec fn keeps(f: Frame, frame: Frame) -> bool {
    f.artifact == frame.artifact && f.descriptor_only == frame.descriptor_only
}

/// An outcome keeps the frame's artifact, and a new frame follows it.
spec fn outcome_nests(o: Outcome, frame: Frame) -> bool {
    match o {
        Outcome::Wait(f, _) => keeps(f, frame),
        Outcome::Spawn(f, c, _) => keeps(f, frame) && follows(progress(f), progress(c)),
        Outcome::Complete(f) => keeps(f, frame),
        Outcome::Fail(_) => true,
    }
}

/// The actions an outcome hands on are requests, not ends of the run.
spec fn outcome_requests(o: Outcome) -> bool {
    match o {
        Outcome::Wait(_, a) => !(a is Failed) && !(a is Finished),
        Outcome::Spawn(_, _, a) => !(a is Failed) && !(a is Finished),
        _ => true,
    }
}

/// An outcome that is no checksum failure.
spec fn outcome_quiet(o: Outcome) -> bool {
    outcome_requests(o) && !(o matches Outcome::Fail(e) && (e is ChecksumInvalid || e is ChecksumUnreadable))
}

/// The progress of each frame of a stack.
spec fn progresses(s: Seq<Frame>) -> Seq<Progress> {
    s.map_values(|f: Frame| progress(f))
}

/// The move an outcome stands for.
spec fn move_of(o: Outcome) -> Move {
    match o {
        Outcome::Wait(f, a) => Move::Wait(progress(f), req(a)),
        Outcome::Spawn(f, c, a) => Move::Spawn(progress(f), progress(c), req(a)),
        Outcome::Complete(f) => Move::Complete(progress(f)),
        Outcome::Fail(e) => Move::Fail(error_view(e)),
    }
}

fn new_frame(artifact: Artifact, descriptor_only: bool) -> (r: Frame)
    ensures
        r.stage == Stage::Start,
        r.artifact == artifact,
        r.descriptor_only == descriptor_only,
        progress(r) == fresh(artifact, descriptor_only),
{
    Frame {
        artifact,
        descriptor_only,
        stage: Stage::Start,
        repo: 0,
        version: String::new(),
        found_in: None,
        metadata: String::new(),
        pom_text: String::new(),
        checksum: Vec::new(),
        pom: None,
        view: None,
        jar: Vec::new(),
        jar_url: String::new(),
        deps: Vec::new(),
        next: 0,
    }
}

impl Loader {
    /// While the run only reads the cache, no frame awaits a repository.
    pub closed spec fn offline(&self) -> bool {
        stack_offline(self.stack@)
    }

    pub closed spec fn spec_cache_root(&self) -> Seq<char> {
        self.cache_root@
    }

    pub closed spec fn spec_repositories(&self) -> Seq<String> {
        self.repositories@
    }

    /// Asks repository `i` for the descriptor: first for the snapshot
    /// metadata where the version is a snapshot, else for the POM itself.
    /// Past the last repository the search has failed.
    fn find_pom(&self, frame: Frame, i: usize) -> (r: Outcome)
        ensures
            move_of(r) == search_move(self.repositories@, progress(frame), i as int),
            outcome_nests(r, frame),
            outcome_requests(r),
            !(r is Complete),
            i >= self.repositories@.len() ==> (r matches Outcome::Fail(
                ResolveError::ExhaustedRepositories { artifact },
            ) && artifact@ == frame.artifact.path@),
            i < self.repositories@.len() && frame.artifact.spec_is_snapshot() ==> (r matches Outcome::Wait(
                f,
                Action::FetchText { url },
            ) && f.stage == Stage::Metadata && f.repo == i && f.artifact == frame.artifact
                && url@ == metadata_url(self.repositories@[i as int]@, frame.artifact)),
            i < self.repositories@.len() && !frame.artifact.spec_is_snapshot() ==> (r matches Outcome::Wait(
                f,
                Action::FetchText { url },
            ) && f.stage == Stage::PomFetch && f.repo == i && f.artifact == frame.artifact
                && f.version@ == frame.artifact.version@ && url@ == remote_file(
                self.repositories@[i as int]@,
                frame.artifact,
                frame.artifact.version@,
                "pom"@,
            )),
    {
        let mut frame = frame;
        if i >= self.repositories.len() {
            return Outcome::Fail(ResolveError::ExhaustedRepositories { artifact: frame.artifact.path.clone() });
        }
        frame.repo = i;
        let repo = self.repositories[i].as_str();
        if frame.artifact.is_snapshot() {
            let url = make_metadata_url(repo, &frame.artifact);
            frame.stage = Stage::Metadata;
            Outcome::Wait(frame, Action::FetchText { url })
        } else {
            frame.version = frame.artifact.version.clone();
            let url = make_remote_file(repo, &frame.artifact, frame.version.as_str(), "pom");
            frame.stage = Stage::PomFetch;
            Outcome::Wait(frame, Action::FetchText { url })
        }
    }

    /// Asks the repository being searched for the POM under `frame.version`.
    fn fetch_pom(&self, frame: Frame) -> (r: Outcome)
        ensures
            move_of(r) == fetch_pom_move(self.repositories@, progress(frame)),
            outcome_nests(r, frame),
            outcome_requests(r),
            !(r is Complete),
            frame.repo < self.repositories@.len() ==> (r matches Outcome::Wait(f, Action::FetchText { url })
                && url@ == remote_file(self.repositories@[frame.repo as int]@, frame.artifact, frame.version@, "pom"@)
                && f.stage == Stage::PomFetch && f.repo == frame.repo && f.artifact == frame.artifact),
    {
        let mut frame = frame;
        if frame.repo >= self.repositories.len() {
            return Outcome::Fail(ResolveError::UnexpectedEvent);
        }
        let url = make_remote_file(
            self.repositories[frame.repo].as_str(),
            &frame.artifact,
            frame.version.as_str(),
            "pom",
        );
        frame.stage = Stage::PomFetch;
        Outcome::Wait(frame, Action::FetchText { url })
    }

    /// The descriptor's checksum is accepted: parse it and resolve its parent.
    fn after_pom_verified(&self, frame: Frame) -> (r: Outcome)
        ensures
            accept_move(self.cache_root@, progress(frame), move_of(r)),
            outcome_nests(r, frame),
            outcome_offline(r),
    {
        let mut frame = frame;
        match Pom::from_str(frame.pom_text.as_str()) {
            Err(error) => Outcome::Fail(ResolveError::Parse { resource: frame.artifact.path.clone(), error }),
            Ok(pom) => {
                match &pom.parent {
                    Some(p) => {
                        let parent = Artifact::new(
                            p.group_id.value.as_str(),
                            p.artifact_id.value.as_str(),
                            p.version.value.as_str(),
                        );
                        let path = make_artifact_dir(self.cache_root.as_str(), &parent);
                        frame.pom = Some(pom);
                        frame.stage = Stage::AwaitParent;
                        Outcome::Spawn(frame, new_frame(parent, true), Action::CreateDir { path })
                    },
                    None => {
                        frame.view = Some(PomView::new(pom, None));
                        self.after_view(frame)
                    },
                }
            },
        }
    }

    /// The descriptor and its ancestors are resolved: a parent descriptor is
    /// done, any other artifact goes on with its jar.
    fn after_view(&self, frame: Frame) -> (r: Outcome)
        ensures
            move_of(r) == after_view_move(self.cache_root@, progress(frame)),
            outcome_nests(r, frame),
            outcome_offline(r),
            outcome_quiet(r),
    {
        let mut frame = frame;
        if frame.descriptor_only {
            frame.stage = Stage::Resolved;
            return Outcome::Complete(frame);
        }
        let path = make_artifact_file(self.cache_root.as_str(), &frame.artifact, "jar");
        frame.stage = Stage::JarCached;
        Outcome::Wait(frame, Action::CheckExists { path })
    }

    /// The jar is in place: turn the effective dependencies into artifacts and
    /// resolve them one after the other.
    fn expand(&self, frame: Frame) -> (r: Outcome)
        ensures
            expand_move(self.cache_root@, progress(frame), move_of(r)),
            outcome_nests(r, frame),
            outcome_offline(r),
            outcome_quiet(r),
    {
        let mut frame = frame;
        let deps = match &frame.view {
            None => return Outcome::Fail(ResolveError::UnexpectedEvent),
            Some(view) => view.dependencies(),
        };
        match deps {
            Err(ViewError::MissingManagedVersion { group, name }) => {
                Outcome::Fail(ResolveError::MissingManagedVersion { group, name })
            },
            Err(ViewError::MissingVersion) => {
                // `dependencies` fails only on a dependency without a version.
                proof {
                    assert(false);
                }
                Outcome::Fail(ResolveError::UnexpectedEvent)
            },
            Ok(deps) => {
                frame.deps = deps;
                frame.next = 0;
                frame.stage = Stage::Expanding;
                self.next_child(frame)
            },
        }
    }

    /// Starts the next dependency of an expanding frame, or completes it.
    fn next_child(&self, frame: Frame) -> (r: Outcome)
        requires
            frame.stage == Stage::Expanding,
        ensures
            move_of(r) == next_child_move(self.cache_root@, progress(frame)),
            (frame.view matches Some(v) && dependencies_of(v, frame.deps@)) ==> outcome_nests(r, frame),
            outcome_offline(r),
            outcome_quiet(r),
    {
        if frame.next < frame.deps.len() {
            let child = new_frame(frame.deps[frame.next].copied(), false);
            let path = make_artifact_dir(self.cache_root.as_str(), &child.artifact);
            Outcome::Spawn(frame, child, Action::CreateDir { path })
        } else {
            let mut frame = frame;
            frame.stage = Stage::Resolved;
            Outcome::Complete(frame)
        }
    }

    /// Checks the descriptor against the sidecar content `sum`.
    fn verify_pom(&self, frame: Frame, sum: &[u8]) -> (r: Outcome)
        ensures
            pom_verdict_move(self.cache_root@, progress(frame), sidecar_verdict(encode_utf8(frame.pom_text@), sum@), move_of(r)),
            outcome_nests(r, frame),
            outcome_offline(r),
            outcome_requests(r),
    {
        match check_sidecar(frame.pom_text.as_str().as_bytes(), sum) {
            Verdict::Valid => self.after_pom_verified(frame),
            Verdict::Invalid => Outcome::Fail(ResolveError::ChecksumInvalid { resource: frame.artifact.path.clone() }),
            Verdict::Unreadable => Outcome::Fail(ResolveError::ChecksumUnreadable { resource: frame.artifact.path.clone() }),
        }
    }

    /// Checks the downloaded jar against the sidecar content `sum`.
    fn verify_jar(&self, frame: Frame, sum: &[u8]) -> (r: Outcome)
        ensures
            jar_verdict_move(self.cache_root@, progress(frame), sidecar_verdict(frame.jar@, sum@), move_of(r)),
            outcome_nests(r, frame),
            outcome_offline(r),
            outcome_requests(r),
            sidecar_verdict(frame.jar@, sum@) is Invalid ==> (r matches Outcome::Fail(
                ResolveError::ChecksumInvalid { resource },
            ) && resource == frame.jar_url),
            sidecar_verdict(frame.jar@, sum@) is Unreadable ==> (r matches Outcome::Fail(
                ResolveError::ChecksumUnreadable { .. },
            )),
    {
        match check_sidecar(frame.jar.as_slice(), sum) {
            Verdict::Valid => self.expand(frame),
            Verdict::Invalid => Outcome::Fail(ResolveError::ChecksumInvalid { resource: frame.jar_url.clone() }),
            Verdict::Unreadable => Outcome::Fail(ResolveError::ChecksumUnreadable { resource: frame.jar_url.clone() }),
        }
    }
}

impl Loader {
    /// Handles the answer `event` to the request the top frame awaits.
    fn on_event(&self, frame: Frame, event: Event) -> (r: Outcome)
        ensures
            frame_move(self.cache_root@, self.repositories@, progress(frame), event, move_of(r)),
            outcome_nests(r, frame),
            outcome_requests(r),
            offline_stage(frame.stage) && !(event matches Event::Exists(false)) ==> outcome_offline(r),
    {
        let mut frame = frame;
        if let Event::Failed(message) = event {
            return Outcome::Fail(ResolveError::Io { message });
        }
        match frame.stage {
            Stage::Start => match event {
                Event::Done => {
                    let path = make_artifact_file(self.cache_root.as_str(), &frame.artifact, "pom");
                    frame.stage = Stage::PomCached;
                    Outcome::Wait(frame, Action::CheckExists { path })
                },
                _ => Outcome::Fail(ResolveError::UnexpectedEvent),
            },
            Stage::PomCached => match event {
                Event::Exists(true) => {
                    let path = make_artifact_file(self.cache_root.as_str(), &frame.artifact, "pom");
                    frame.stage = Stage::PomRead;
                    Outcome::Wait(frame, Action::ReadText { path })
                },
                Event::Exists(false) => self.find_pom(frame, 0),
                _ => Outcome::Fail(ResolveError::UnexpectedEvent),
            },
            Stage::PomRead => match event {
                Event::Text(text) => {
                    frame.pom_text = text;
                    frame.found_in = None;
                    self.check_pom_sidecar(frame)
                },
                _ => Outcome::Fail(ResolveError::UnexpectedEvent),
            },
            Stage::Metadata => match event {
                Event::Text(text) => {
                    let path = make_metadata_file(self.cache_root.as_str(), &frame.artifact);
                    frame.metadata = text.clone();
                    frame.stage = Stage::MetadataSaved;
                    Outcome::Wait(frame, Action::WriteText { path, text })
                },
                Event::NotFound => {
                    frame.version = frame.artifact.version.clone();
                    self.fetch_pom(frame)
                },
                _ => Outcome::Fail(ResolveError::UnexpectedEvent),
            },
            Stage::MetadataSaved => match event {
                Event::Done => match load_snapshot_build_nr(frame.metadata.as_str()) {
                    Err(error) => Outcome::Fail(
                        ResolveError::Parse { resource: make_metadata_file(self.cache_root.as_str(), &frame.artifact), error },
                    ),
                    Ok(label) => {
                        frame.version = resolve_version(&frame.artifact, Some(label.as_str()));
                        self.fetch_pom(frame)
                    },
                },
                _ => Outcome::Fail(ResolveError::UnexpectedEvent),
            },
            Stage::PomFetch => match event {
                Event::Text(text) => {
                    let path = make_artifact_file(self.cache_root.as_str(), &frame.artifact, "pom");
                    frame.found_in = Some(frame.repo);
                    frame.pom_text = text.clone();
                    frame.stage = Stage::PomSaved;
                    Outcome::Wait(frame, Action::WriteText { path, text })
                },
                Event::NotFound => {
                    if frame.repo >= self.repositories.len() {
                        return Outcome::Fail(ResolveError::UnexpectedEvent);
                    }
                    let next = frame.repo + 1;
                    self.find_pom(frame, next)
                },
                _ => Outcome::Fail(ResolveError::UnexpectedEvent),
            },
            Stage::PomSaved => match event {
                Event::Done => self.check_pom_sidecar(frame),
                _ => Outcome::Fail(ResolveError::UnexpectedEvent),
            },
            Stage::PomSumCached => match event {
                Event::Exists(true) => {
                    let pom = make_artifact_file(self.cache_root.as_str(), &frame.artifact, "pom");
                    let path = make_sidecar(pom.as_str());
                    frame.stage = Stage::PomSumRead;
                    Outcome::Wait(frame, Action::ReadBytes { path })
                },
                Event::Exists(false) => match frame.found_in {
                    Some(i) if i < self.repositories.len() => {
                        let pom = make_remote_file(
                            self.repositories[i].as_str(),
                            &frame.artifact,
                            frame.version.as_str(),
                            "pom",
                        );
                        let url = make_sidecar(pom.as_str());
                        frame.stage = Stage::PomSumFetch;
                        Outcome::Wait(frame, Action::FetchBytes { url })
                    },
                    // Served from the cache without a sidecar: accepted unverified.
                    _ => self.after_pom_verified(frame),
                },
                _ => Outcome::Fail(ResolveError::UnexpectedEvent),
            },
            Stage::PomSumRead => match event {
                Event::Bytes(sum) => self.verify_pom(frame, sum.as_slice()),
                _ => Outcome::Fail(ResolveError::UnexpectedEvent),
            },
            Stage::PomSumFetch => match event {
                Event::Bytes(sum) => {
                    let pom = make_artifact_file(self.cache_root.as_str(), &frame.artifact, "pom");
                    let path = make_sidecar(pom.as_str());
                    frame.checksum = sum.clone();
                    frame.stage = Stage::PomSumSaved;
                    Outcome::Wait(frame, Action::WriteBytes { path, bytes: sum })
                },
                // No sidecar anywhere: accepted unverified.
                Event::NotFound => self.after_pom_verified(frame),
                _ => Outcome::Fail(ResolveError::UnexpectedEvent),
            },
            Stage::PomSumSaved => match event {
                Event::Done => {
                    let sum = frame.checksum.clone();
                    self.verify_pom(frame, sum.as_slice())
                },
                _ => Outcome::Fail(ResolveError::UnexpectedEvent),
            },
            Stage::JarCached => match event {
                Event::Exists(true) => self.expand(frame),
                Event::Exists(false) => {
                    // The jar lies beside the descriptor, under the version it
                    // was found under; a descriptor from the cache leaves only
                    // the declared version and the default repository.
                    let url = match frame.found_in {
                        Some(i) if i < self.repositories.len() => make_remote_file(
                            self.repositories[i].as_str(),
                            &frame.artifact,
                            frame.version.as_str(),
                            "jar",
                        ),
                        _ => make_remote_file(
                            DEFAULT_REPOSITORY,
                            &frame.artifact,
                            frame.artifact.version.as_str(),
                            "jar",
                        ),
                    };
                    frame.jar_url = url.clone();
                    frame.stage = Stage::JarFetch;
                    Outcome::Wait(frame, Action::FetchBytes { url })
                },
                _ => Outcome::Fail(ResolveError::UnexpectedEvent),
            },
            Stage::JarFetch => match event {
                Event::Bytes(jar) => {
                    let path = make_artifact_file(self.cache_root.as_str(), &frame.artifact, "jar");
                    frame.jar = jar.clone();
                    frame.stage = Stage::JarSaved;
                    Outcome::Wait(frame, Action::WriteBytes { path, bytes: jar })
                },
                Event::NotFound => Outcome::Fail(ResolveError::JarNotFound { url: frame.jar_url.clone() }),
                _ => Outcome::Fail(ResolveError::UnexpectedEvent),
            },
            Stage::JarSaved => match event {
                Event::Done => {
                    let jar = make_artifact_file(self.cache_root.as_str(), &frame.artifact, "jar");
                    let path = make_sidecar(jar.as_str());
                    frame.stage = Stage::JarSumCached;
                    Outcome::Wait(frame, Action::CheckExists { path })
                },
                _ => Outcome::Fail(ResolveError::UnexpectedEvent),
            },
            Stage::JarSumCached => match event {
                Event::Exists(true) => {
                    let jar = make_artifact_file(self.cache_root.as_str(), &frame.artifact, "jar");
                    let path = make_sidecar(jar.as_str());
                    frame.stage = Stage::JarSumRead;
                    Outcome::Wait(frame, Action::ReadBytes { path })
                },
                Event::Exists(false) => {
                    let url = make_sidecar(frame.jar_url.as_str());
                    frame.stage = Stage::JarSumFetch;
                    Outcome::Wait(frame, Action::FetchBytes { url })
                },
                _ => Outcome::Fail(ResolveError::UnexpectedEvent),
            },
            Stage::JarSumRead => match event {
                Event::Bytes(sum) => self.verify_jar(frame, sum.as_slice()),
                _ => Outcome::Fail(ResolveError::UnexpectedEvent),
            },
            Stage::JarSumFetch => match event {
                Event::Bytes(sum) => {
                    let jar = make_artifact_file(self.cache_root.as_str(), &frame.artifact, "jar");
                    let path = make_sidecar(jar.as_str());
                    frame.checksum = sum.clone();
                    frame.stage = Stage::JarSumSaved;
                    Outcome::Wait(frame, Action::WriteBytes { path, bytes: sum })
                },
                // No sidecar anywhere: accepted unverified.
                Event::NotFound => self.expand(frame),
                _ => Outcome::Fail(ResolveError::UnexpectedEvent),
            },
            Stage::JarSumSaved => match event {
                Event::Done => {
                    let sum = frame.checksum.clone();
                    self.verify_jar(frame, sum.as_slice())
                },
                _ => Outcome::Fail(ResolveError::UnexpectedEvent),
            },
            Stage::AwaitParent | Stage::Expanding | Stage::Resolved => Outcome::Fail(ResolveError::UnexpectedEvent),
        }
    }

    /// Looks for the descriptor's sidecar in the cache.
    fn check_pom_sidecar(&self, frame: Frame) -> (r: Outcome)
        ensures
            move_of(r) == Move::Wait(Progress { stage: Stage::PomSumCached, ..progress(frame) }, Req::CheckExists(sidecar_of(artifact_file(self.cache_root@, frame.artifact, "pom"@)))),
            outcome_nests(r, frame),
            r matches Outcome::Wait(_, Action::CheckExists { path }) && path@ == sidecar_of(
                artifact_file(self.cache_root@, frame.artifact, "pom"@),
            ),
            r matches Outcome::Wait(f, a) && f.stage == Stage::PomSumCached && a is CheckExists
                && f.found_in == frame.found_in && f.artifact == frame.artifact && f.pom_text == frame.pom_text,
    {
        let mut frame = frame;
        let pom = make_artifact_file(self.cache_root.as_str(), &frame.artifact, "pom");
        let path = make_sidecar(pom.as_str());
        frame.stage = Stage::PomSumCached;
        Outcome::Wait(frame, Action::CheckExists { path })
    }
}

spec fn stack_offline(s: Seq<Frame>) -> bool {
    forall|i: int| 0 <= i < s.len() ==> offline_stage(#[trigger] s[i].stage)
}

proof fn lemma_push_offline(prev: Seq<Frame>, f: Frame)
    requires
        stack_offline(prev),
        offline_stage(f.stage),
    ensures
        stack_offline(prev.push(f)),
{
    assert forall|i: int| 0 <= i < prev.push(f).len() implies offline_stage(#[trigger] prev.push(f)[i].stage) by {
        if i < prev.len() {
            assert(prev.push(f)[i] == prev[i]);
        }
    }
}

spec fn nested_frames(s: Seq<Frame>) -> bool {
    forall|i: int| 0 <= i < s.len() - 1 ==> #[trigger] follows(progress(s[i]), progress(s[i + 1]))
}

/// `f` may go on top of `s`.
spec fn fits(s: Seq<Frame>, f: Frame) -> bool {
    s.len() == 0 || follows(progress(s.last()), progress(f))
}

spec fn outcome_fits(s: Seq<Frame>, o: Outcome) -> bool {
    match o {
        Outcome::Wait(f, _) => fits(s, f),
        Outcome::Spawn(f, c, _) => fits(s, f) && follows(progress(f), progress(c)),
        Outcome::Complete(f) => fits(s, f),
        Outcome::Fail(_) => true,
    }
}

proof fn lemma_push_nested(s: Seq<Frame>, f: Frame)
    requires
        nested_frames(s),
        fits(s, f),
    ensures
        nested_frames(s.push(f)),
{
    assert forall|i: int| 0 <= i < s.push(f).len() - 1 implies #[trigger] follows(
        progress(s.push(f)[i]),
        progress(s.push(f)[i + 1]),
    ) by {
        if i + 1 < s.len() {
            assert(follows(progress(s[i]), progress(s[i + 1])));
        }
    }
}

proof fn lemma_pop_nested(s: Seq<Frame>)
    requires
        nested_frames(s),
        s.len() > 0,
    ensures
        nested_frames(s.drop_last()),
        fits(s.drop_last(), s.last()),
{
    let t = s.drop_last();
    assert forall|i: int| 0 <= i < t.len() - 1 implies #[trigger] follows(progress(t[i]), progress(t[i + 1])) by {
        assert(follows(progress(s[i]), progress(s[i + 1])));
    }
    if t.len() > 0 {
        let i = t.len() - 1;
        assert(follows(progress(s[i]), progress(s[i + 1])));
        assert(s[i + 1] == s.last());
    }
}

proof fn lemma_nested_pending(s: Seq<Frame>)
    requires
        nested_frames(s),
    ensures
        nested(progresses(s)),
{
    let m = progresses(s);
    assert forall|i: int| 0 <= i < m.len() - 1 implies #[trigger] follows(m[i], m[i + 1]) by {
        assert(follows(progress(s[i]), progress(s[i + 1])));
    }
}

proof fn lemma_pending_nested(s: Seq<Frame>)
    requires
        nested(progresses(s)),
    ensures
        nested_frames(s),
{
    let m = progresses(s);
    assert forall|i: int| 0 <= i < s.len() - 1 implies #[trigger] follows(progress(s[i]), progress(s[i + 1])) by {
        assert(follows(m[i], m[i + 1]));
    }
}

proof fn lemma_push_pending(prev: Seq<Frame>, f: Frame)
    ensures
        progresses(prev.push(f)) == progresses(prev).push(progress(f)),
{
    assert(progresses(prev.push(f)) =~= progresses(prev).push(progress(f)));
}

proof fn lemma_pop_pending(prev: Seq<Frame>)
    requires
        prev.len() > 0,
    ensures
        progresses(prev.drop_last()) == progresses(prev).drop_last(),
        progresses(prev).last() == progress(prev.last()),
{
    assert(progresses(prev.drop_last()) =~= progresses(prev).drop_last());
}

proof fn lemma_pop_offline(prev: Seq<Frame>)
    requires
        stack_offline(prev),
        prev.len() > 0,
    ensures
        stack_offline(prev.drop_last()),
        offline_stage(prev.last().stage),
{
    assert forall|i: int| 0 <= i < prev.drop_last().len() implies offline_stage(
        #[trigger] prev.drop_last()[i].stage,
    ) by {
        assert(prev.drop_last()[i] == prev[i]);
    }
}

impl Loader {
    /// The run has neither finished nor failed.
    pub closed spec fn running(&self) -> bool {
        self.status == Status::Running
    }

    /// How the run stands.
    pub closed spec fn spec_status(&self) -> Status {
        self.status
    }

    /// The artifacts the project declares, in the order they are resolved.
    pub closed spec fn spec_roots(&self) -> Seq<Artifact> {
        self.roots@
    }

    /// The index among them of the declared artifact being resolved.
    pub closed spec fn spec_next_root(&self) -> int {
        self.next_root as int
    }

    /// Where the run stands after answering with `a`.
    pub open spec fn spec_end(&self, a: Action) -> StepEnd {
        StepEnd { pending: self.pending(), next_root: self.spec_next_root(), req: req(a), status: self.spec_status() }
    }

    /// The artifacts in progress, the declared one at the bottom and the one
    /// being worked on at the top.
    pub closed spec fn pending(&self) -> Seq<Progress> {
        progresses(self.stack@)
    }

    /// Where the artifact being resolved stands, while the run goes on.
    pub open spec fn current(&self) -> Option<Progress> {
        if self.spec_status() == Status::Running && self.pending().len() > 0 {
            Some(self.pending().last())
        } else {
            None
        }
    }

    /// Hands a frame whose artifact is resolved to the frame below it.
    fn resume(&self, below: Frame, done: Frame) -> (r: Outcome)
        ensures
            move_of(r) == resume_move(self.cache_root@, progress(below), progress(done)),
            follows(progress(below), progress(done)) ==> outcome_nests(r, below),
            outcome_quiet(r),
            offline_stage(below.stage) ==> outcome_offline(r),
    {
        let mut below = below;
        match below.stage {
            Stage::AwaitParent => {
                let pom = below.pom.take();
                match (pom, done.view) {
                    (Some(pom), Some(parent)) => {
                        below.view = Some(PomView::new(pom, Some(parent)));
                        self.after_view(below)
                    },
                    _ => Outcome::Fail(ResolveError::UnexpectedEvent),
                }
            },
            Stage::Expanding => {
                if below.next >= below.deps.len() {
                    return Outcome::Fail(ResolveError::UnexpectedEvent);
                }
                below.next = below.next + 1;
                self.next_child(below)
            },
            _ => Outcome::Fail(ResolveError::UnexpectedEvent),
        }
    }

    /// Applies an outcome to the stack, going down it as long as frames
    /// complete, and gives the next request.
    fn settle(&mut self, outcome: Outcome) -> (action: Action)
        requires
            old(self).running(),
            outcome_requests(outcome),
        ensures
            nested_frames(old(self).stack@) && outcome_fits(old(self).stack@, outcome) ==> nested_frames(
                final(self).stack@,
            ),
            final(self).spec_end(action) == settled(
                old(self).cache_root@,
                old(self).roots@,
                old(self).pending(),
                old(self).next_root as int,
                move_of(outcome),
            ),
            (action is Failed || action is Finished) ==> !final(self).running(),
            final(self).roots == old(self).roots,
            outcome matches Outcome::Spawn(f, c, a) ==> final(self).stack@ == old(self).stack@.push(f).push(c)
                && final(self).status == old(self).status,
            old(self).offline() && outcome_offline(outcome) ==> final(self).offline() && !is_fetch(action)
                && !is_write(action),
            final(self).cache_root == old(self).cache_root,
            final(self).repositories == old(self).repositories,
            outcome matches Outcome::Wait(f, a) ==> action == a && final(self).stack@ == old(
                self,
            ).stack@.push(f) && final(self).status == old(self).status,
            outcome matches Outcome::Fail(e) ==> action == (Action::Failed { error: e }),
    {
        let mut current = outcome;
        let ghost offline_in = self.offline() && outcome_offline(outcome);
        let ghost mut first = true;
        let ghost nested_in = nested_frames(self.stack@) && outcome_fits(self.stack@, outcome);
        let ghost target = settled(self.cache_root@, self.roots@, self.pending(), self.next_root as int, move_of(outcome));
        loop
            invariant
                settled(self.cache_root@, self.roots@, self.pending(), self.next_root as int, move_of(current)) == target,
                target == settled(
                    old(self).cache_root@,
                    old(self).roots@,
                    old(self).pending(),
                    old(self).next_root as int,
                    move_of(outcome),
                ),
                self.roots == old(self).roots,
                first ==> current == outcome && self.stack@ == old(self).stack@ && self.status == old(
                    self,
                ).status,
                !first ==> outcome is Complete && outcome_quiet(current),
                outcome_requests(current),
                self.status == Status::Running,
                nested_in == (nested_frames(old(self).stack@) && outcome_fits(old(self).stack@, outcome)),
                nested_in ==> nested_frames(self.stack@) && outcome_fits(self.stack@, current),
                offline_in == (old(self).offline() && outcome_offline(outcome)),
                offline_in ==> self.offline() && outcome_offline(current),
                self.cache_root == old(self).cache_root,
                self.repositories == old(self).repositories,
            decreases self.stack@.len(),
        {
            match current {
                Outcome::Wait(f, a) => {
                    let ghost prev = self.stack@;
                    self.stack.push(f);
                    proof {
                        lemma_push_pending(prev, f);
                        if nested_in {
                            lemma_push_nested(prev, f);
                        }
                        if offline_in {
                            lemma_push_offline(prev, f);
                        }
                    }
                    return a;
                },
                Outcome::Spawn(f, c, a) => {
                    let ghost prev = self.stack@;
                    self.stack.push(f);
                    proof {
                        lemma_push_pending(prev, f);
                        if nested_in {
                            lemma_push_nested(prev, f);
                        }
                        if offline_in {
                            lemma_push_offline(prev, f);
                        }
                    }
                    let ghost prev = self.stack@;
                    self.stack.push(c);
                    proof {
                        lemma_push_pending(prev, c);
                        if nested_in {
                            lemma_push_nested(prev, c);
                        }
                        if offline_in {
                            lemma_push_offline(prev, c);
                        }
                    }
                    return a;
                },
                Outcome::Fail(error) => {
                    self.status = Status::Failed;
                    return Action::Failed { error };
                },
                Outcome::Complete(done) => {
                    let ghost prev = self.stack@;
                    match self.stack.pop() {
                        None => {
                            proof {
                                assert(progresses(prev) =~= Seq::<Progress>::empty());
                            }
                            // A declared artifact is resolved: on to the next one.
                            if self.roots.len() > 0 && self.next_root < self.roots.len() - 1 {
                                self.next_root = self.next_root + 1;
                                let f = new_frame(self.roots[self.next_root].copied(), false);
                                let path = make_artifact_dir(self.cache_root.as_str(), &f.artifact);
                                let ghost prev = self.stack@;
                                self.stack.push(f);
                                proof {
                                    lemma_push_pending(prev, f);
                                    assert(progresses(prev) =~= Seq::<Progress>::empty());
                                    if nested_in {
                                        lemma_push_nested(prev, f);
                                    }
                                    if offline_in {
                                        lemma_push_offline(prev, f);
                                    }
                                }
                                return Action::CreateDir { path };
                            }
                            self.status = Status::Succeeded;
                            return Action::Finished;
                        },
                        Some(below) => {
                            proof {
                                lemma_pop_pending(prev);
                                let s0 = progresses(prev);
                                assert(settled(self.cache_root@, self.roots@, s0, self.next_root as int, move_of(current))
                                    == unwind(self.cache_root@, self.roots@, s0, self.next_root as int, progress(done)));
                                if nested_in {
                                    lemma_pop_nested(prev);
                                }
                                if offline_in {
                                    lemma_pop_offline(prev);
                                }
                            }
                            current = self.resume(below, done);
                            proof {
                                first = false;
                            }
                        },
                    }
                },
            }
        }
    }

    /// Takes the answer to the last request and gives the next one.
    pub fn step(&mut self, event: Event) -> (action: Action)
        ensures
            // The artifact at the top of the stack makes the move that
            // `frame_move` gives for its stage and this answer; the run then
            // stands as `settled` says: the stack, the declared artifact
            // being resolved, the request made, and whether the run goes on.
            step_allowed(
                old(self).spec_cache_root(),
                old(self).spec_repositories(),
                old(self).spec_roots(),
                old(self).pending(),
                old(self).spec_next_root(),
                old(self).spec_status(),
                event,
                final(self).spec_end(action),
            ),
            // A run that only ever finds what it looks for in the cache
            // never asks a repository for anything and writes no file.
            old(self).offline() && !(event matches Event::Exists(false)) ==> final(self).offline()
                && !is_fetch(action) && !is_write(action),
            // A run that has ended keeps its end.
            old(self).spec_status() == Status::Failed ==> action is Failed && final(self).spec_status() == Status::Failed,
            old(self).spec_status() == Status::Succeeded ==> action is Finished && final(self).spec_status()
                == Status::Succeeded,
            (action is Failed || action is Finished) ==> !final(self).running(),
            final(self).spec_cache_root() == old(self).spec_cache_root(),
            final(self).spec_repositories() == old(self).spec_repositories(),
            final(self).spec_roots() == old(self).spec_roots(),
            // Each artifact in progress is the parent or the next dependency,
            // in declaration order, of the one below it.
            nested(old(self).pending()) ==> nested(final(self).pending()),
    {
        if self.status == Status::Succeeded {
            return Action::Finished;
        }
        if self.status == Status::Failed {
            return Action::Failed { error: ResolveError::UnexpectedEvent };
        }
        match self.stack.pop() {
            None => {
                self.status = Status::Failed;
                Action::Failed { error: ResolveError::UnexpectedEvent }
            },
            Some(top) => {
                assert(top == old(self).stack@.last());
                assert(old(self).offline() ==> offline_stage(top.stage)) by {
                    if old(self).offline() {
                        assert(offline_stage(old(self).stack@[old(self).stack@.len() - 1].stage));
                    }
                };
                proof {
                    if nested(old(self).pending()) {
                        lemma_pending_nested(old(self).stack@);
                        lemma_pop_nested(old(self).stack@);
                    }
                }
                let outcome = self.on_event(top, event);
                proof {
                    lemma_pop_pending(old(self).stack@);
                    assert(self.pending() == old(self).pending().drop_last());
                }
                let action = self.settle(outcome);
                proof {
                    if nested(old(self).pending()) {
                        lemma_nested_pending(self.stack@);
                    }
                    lemma_pop_pending(old(self).stack@);
                    let m = move_of(outcome);
                    assert(old(self).current()->Some_0 == progress(top));
                    assert(frame_move(old(self).cache_root@, old(self).repositories@, progress(top), event, m));
                    assert(self.spec_end(action) == settled(
                        old(self).cache_root@,
                        old(self).roots@,
                        old(self).pending().drop_last(),
                        old(self).next_root as int,
                        m,
                    ));
                    assert(frame_move(old(self).spec_cache_root(), old(self).spec_repositories(), old(self).current()->Some_0, event, m)
                        && self.spec_end(action) == settled(
                        old(self).spec_cache_root(),
                        old(self).spec_roots(),
                        old(self).pending().drop_last(),
                        old(self).spec_next_root(),
                        m,
                    ));
                }
                action
            },
        }
    }
}

/// The artifacts a project declares: its main dependencies, then its test
/// dependencies.
pub fn load_artifacts(project: &Project) -> (r: Vec<Artifact>)
    ensures
        r@ == project.main_dependencies@ + project.test_dependencies@,
{
    let mut r: Vec<Artifact> = Vec::new();
    let mut i: usize = 0;
    while i < project.main_dependencies.len()
        invariant
            i <= project.main_dependencies@.len(),
            r@ == project.main_dependencies@.subrange(0, i as int),
        decreases project.main_dependencies@.len() - i,
    {
        r.push(project.main_dependencies[i].copied());
        assert(r@ =~= project.main_dependencies@.subrange(0, i + 1));
        i = i + 1;
    }
    let mut j: usize = 0;
    while j < project.test_dependencies.len()
        invariant
            j <= project.test_dependencies@.len(),
            i == project.main_dependencies@.len(),
            r@ == project.main_dependencies@ + project.test_dependencies@.subrange(0, j as int),
        decreases project.test_dependencies@.len() - j,
    {
        r.push(project.test_dependencies[j].copied());
        assert(r@ =~= project.main_dependencies@ + project.test_dependencies@.subrange(0, j + 1));
        j = j + 1;
    }
    assert(project.test_dependencies@.subrange(0, j as int) =~= project.test_dependencies@);
    assert(project.main_dependencies@.subrange(0, i as int) =~= project.main_dependencies@);
    r
}

/// Starts resolving the artifacts `project` declares into the cache below
/// `cache_root`, searching its repositories in order; gives the run and its
/// first request.
pub fn load(project: &Project, cache_root: &str) -> (r: (Loader, Action))
    ensures
        r.0.offline(),
        nested(r.0.pending()),
        r.0.spec_roots() == project.main_dependencies@ + project.test_dependencies@,
        r.0.spec_next_root() == 0,
        project.main_dependencies@.len() + project.test_dependencies@.len() > 0 ==> r.0.pending() == seq![
            fresh((project.main_dependencies@ + project.test_dependencies@)[0], false),
        ] && r.0.spec_status() == Status::Running,
        r.0.spec_cache_root() == cache_root@,
        r.0.spec_repositories() == project.repositories@,
        project.main_dependencies@.len() + project.test_dependencies@.len() == 0 ==> r.1 is Finished
            && !r.0.running(),
        project.main_dependencies@.len() + project.test_dependencies@.len() > 0 ==> (r.0.current() matches Some(
            p,
        ) && p.artifact == (project.main_dependencies@ + project.test_dependencies@)[0] && p.stage == Stage::Start
            && !p.descriptor_only),
        project.main_dependencies@.len() + project.test_dependencies@.len() > 0 ==> r.0.running() && (
        r.1 matches Action::CreateDir { path } && path@ == artifact_dir(
            cache_root@,
            (project.main_dependencies@ + project.test_dependencies@)[0],
        )),
{
    let roots = load_artifacts(project);
    let mut repositories: Vec<String> = Vec::new();
    let mut i: usize = 0;
    while i < project.repositories.len()
        invariant
            i <= project.repositories@.len(),
            repositories@ == project.repositories@.subrange(0, i as int),
        decreases project.repositories@.len() - i,
    {
        repositories.push(project.repositories[i].clone());
        assert(repositories@ =~= project.repositories@.subrange(0, i + 1));
        i = i + 1;
    }
    assert(project.repositories@.subrange(0, i as int) =~= project.repositories@);
    let mut loader = Loader {
        cache_root: cache_root.to_owned(),
        repositories,
        roots,
        next_root: 0,
        stack: Vec::new(),
        status: Status::Running,
    };
    if loader.roots.len() == 0 {
        loader.status = Status::Succeeded;
        return (loader, Action::Finished);
    }
    let f = new_frame(loader.roots[0].copied(), false);
    let path = make_artifact_dir(loader.cache_root.as_str(), &f.artifact);
    loader.stack.push(f);
    proof {
        assert(loader.stack@ =~= seq![f]);
        assert(progresses(loader.stack@) =~= seq![progress(f)]);
    }
    (loader, Action::CreateDir { path })
}

/// One step that the answer `e` makes in the only way `frame_move` allows.
proof fn lemma_wait_step(
    root: Seq<char>,
    repos: Seq<String>,
    roots: Seq<Artifact>,
    s: StepEnd,
    e: Event,
    after: StepEnd,
    q: Progress,
    r: Req,
)
    requires
        s.status == Status::Running,
        s.pending.len() == 1,
        step_allowed(root, repos, roots, s.pending, s.next_root, s.status, e, after),
        forall|m: Move| #[trigger] frame_move(root, repos, s.pending.last(), e, m) ==> m == Move::Wait(q, r),
    ensures
        after == (StepEnd { pending: seq![q], next_root: s.next_root, req: r, status: Status::Running }),
{
    let m = choose|m: Move| {
        &&& frame_move(root, repos, s.pending.last(), e, m)
        &&& after == settled(root, roots, s.pending.drop_last(), s.next_root, m)
    };
    assert(m == Move::Wait(q, r));
    assert(s.pending.drop_last().push(q) =~= seq![q]);
}

/// A single declared artifact resolved against one repository into an empty
/// cache: its descriptor reads, names no parent and declares no dependencies,
/// and the repository serves the descriptor, the jar and sidecars that
/// confirm both. Then the run creates the artifact's directory, fetches and
/// stores the POM, its sidecar, the jar and its sidecar from that repository,
/// checks both, and finishes.
pub proof fn lemma_single_artifact_run(
    root: Seq<char>,
    repos: Seq<String>,
    a: Artifact,
    pom_text: Seq<char>,
    pom_sum: Seq<u8>,
    jar: Seq<u8>,
    jar_sum: Seq<u8>,
    events: Seq<Event>,
    states: Seq<StepEnd>,
)
    requires
        a.wf(),
        !a.spec_is_snapshot(),
        repos.len() == 1,
        descriptor_reads(pom_text),
        parent_of(pom_text) is None,
        last_child(doc_of(pom_text)->Some_0, 0, "dependencies"@) is None,
        sidecar_verdict(encode_utf8(pom_text), pom_sum) is Valid,
        sidecar_verdict(jar, jar_sum) is Valid,
        events.len() == 13,
        events[0] == Event::Done,
        events[1] == Event::Exists(false),
        events[2] matches Event::Text(t) && t@ == pom_text,
        events[3] == Event::Done,
        events[4] == Event::Exists(false),
        events[5] matches Event::Bytes(b) && b@ == pom_sum,
        events[6] == Event::Done,
        events[7] == Event::Exists(false),
        events[8] matches Event::Bytes(b) && b@ == jar,
        events[9] == Event::Done,
        events[10] == Event::Exists(false),
        events[11] matches Event::Bytes(b) && b@ == jar_sum,
        events[12] == Event::Done,
        states.len() == 14,
        states[0] == (StepEnd {
            pending: seq![fresh(a, false)],
            next_root: 0,
            req: Req::CreateDir(artifact_dir(root, a)),
            status: Status::Running,
        }),
        forall|i: int|
            0 <= i < 13 ==> step_allowed(
                root,
                repos,
                seq![a],
                #[trigger] states[i].pending,
                states[i].next_root,
                states[i].status,
                events[i],
                states[i + 1],
            ),
    ensures
        states[1].req == Req::CheckExists(artifact_file(root, a, "pom"@)),
        states[2].req == Req::FetchText(remote_file(repos[0]@, a, a.version@, "pom"@)),
        states[3].req == Req::WriteText(artifact_file(root, a, "pom"@), pom_text),
        states[4].req == Req::CheckExists(sidecar_of(artifact_file(root, a, "pom"@))),
        states[5].req == Req::FetchBytes(sidecar_of(remote_file(repos[0]@, a, a.version@, "pom"@))),
        states[6].req == Req::WriteBytes(sidecar_of(artifact_file(root, a, "pom"@)), pom_sum),
        states[7].req == Req::CheckExists(artifact_file(root, a, "jar"@)),
        states[8].req == Req::FetchBytes(remote_file(repos[0]@, a, a.version@, "jar"@)),
        states[9].req == Req::WriteBytes(artifact_file(root, a, "jar"@), jar),
        states[10].req == Req::CheckExists(sidecar_of(artifact_file(root, a, "jar"@))),
        states[11].req == Req::FetchBytes(sidecar_of(remote_file(repos[0]@, a, a.version@, "jar"@))),
        states[12].req == Req::WriteBytes(sidecar_of(artifact_file(root, a, "jar"@)), jar_sum),
        states[13].req == Req::Finished,
        states[13].status == Status::Succeeded,
{
    let roots = seq![a];
    let pom = artifact_file(root, a, "pom"@);
    let jarf = artifact_file(root, a, "jar"@);
    let p0 = fresh(a, false);
    assert(step_allowed(root, repos, roots, states[0].pending, states[0].next_root, states[0].status, events[0], states[1]));
    let p1 = Progress { stage: Stage::PomCached, ..p0 };
    lemma_wait_step(root, repos, roots, states[0], events[0], states[1], p1, Req::CheckExists(pom));
    assert(step_allowed(root, repos, roots, states[1].pending, states[1].next_root, states[1].status, events[1], states[2]));
    let p2 = Progress { stage: Stage::PomFetch, repo: 0, version: a.version@, ..p1 };
    lemma_wait_step(root, repos, roots, states[1], events[1], states[2], p2, Req::FetchText(remote_file(repos[0]@, a, a.version@, "pom"@)));
    assert(step_allowed(root, repos, roots, states[2].pending, states[2].next_root, states[2].status, events[2], states[3]));
    let p3 = Progress { stage: Stage::PomSaved, found_in: Some(0), pom_text, ..p2 };
    lemma_wait_step(root, repos, roots, states[2], events[2], states[3], p3, Req::WriteText(pom, pom_text));
    assert(step_allowed(root, repos, roots, states[3].pending, states[3].next_root, states[3].status, events[3], states[4]));
    let p4 = Progress { stage: Stage::PomSumCached, ..p3 };
    lemma_wait_step(root, repos, roots, states[3], events[3], states[4], p4, Req::CheckExists(sidecar_of(pom)));
    assert(step_allowed(root, repos, roots, states[4].pending, states[4].next_root, states[4].status, events[4], states[5]));
    let p5 = Progress { stage: Stage::PomSumFetch, ..p4 };
    lemma_wait_step(root, repos, roots, states[4], events[4], states[5], p5, Req::FetchBytes(sidecar_of(remote_file(repos[0]@, a, a.version@, "pom"@))));
    assert(step_allowed(root, repos, roots, states[5].pending, states[5].next_root, states[5].status, events[5], states[6]));
    let p6 = Progress { stage: Stage::PomSumSaved, checksum: pom_sum, ..p5 };
    lemma_wait_step(root, repos, roots, states[5], events[5], states[6], p6, Req::WriteBytes(sidecar_of(pom), pom_sum));
    // The descriptor is accepted; it names no parent, so its view is built
    // and the jar is looked for.
    assert(step_allowed(root, repos, roots, states[6].pending, states[6].next_root, states[6].status, events[6], states[7]));
    let m6 = choose|m: Move| {
        &&& frame_move(root, repos, states[6].pending.last(), events[6], m)
        &&& states[7] == settled(root, roots, states[6].pending.drop_last(), states[6].next_root, m)
    };
    let v = moved(m6).view;
    let p7 = Progress { stage: Stage::JarCached, view: v, ..p6 };
    assert(m6 == Move::Wait(p7, Req::CheckExists(jarf)));
    assert(states[6].pending.drop_last().push(p7) =~= seq![p7]);
    assert(states[7] == (StepEnd { pending: seq![p7], next_root: 0, req: Req::CheckExists(jarf), status: Status::Running }));
    assert(step_allowed(root, repos, roots, states[7].pending, states[7].next_root, states[7].status, events[7], states[8]));
    let url = remote_file(repos[0]@, a, a.version@, "jar"@);
    let p8 = Progress { stage: Stage::JarFetch, jar_url: url, ..p7 };
    lemma_wait_step(root, repos, roots, states[7], events[7], states[8], p8, Req::FetchBytes(url));
    assert(step_allowed(root, repos, roots, states[8].pending, states[8].next_root, states[8].status, events[8], states[9]));
    let p9 = Progress { stage: Stage::JarSaved, jar, ..p8 };
    lemma_wait_step(root, repos, roots, states[8], events[8], states[9], p9, Req::WriteBytes(jarf, jar));
    assert(step_allowed(root, repos, roots, states[9].pending, states[9].next_root, states[9].status, events[9], states[10]));
    let p10 = Progress { stage: Stage::JarSumCached, ..p9 };
    lemma_wait_step(root, repos, roots, states[9], events[9], states[10], p10, Req::CheckExists(sidecar_of(jarf)));
    assert(step_allowed(root, repos, roots, states[10].pending, states[10].next_root, states[10].status, events[10], states[11]));
    let p11 = Progress { stage: Stage::JarSumFetch, ..p10 };
    lemma_wait_step(root, repos, roots, states[10], events[10], states[11], p11, Req::FetchBytes(sidecar_of(url)));
    assert(step_allowed(root, repos, roots, states[11].pending, states[11].next_root, states[11].status, events[11], states[12]));
    let p12 = Progress { stage: Stage::JarSumSaved, checksum: jar_sum, ..p11 };
    lemma_wait_step(root, repos, roots, states[11], events[11], states[12], p12, Req::WriteBytes(sidecar_of(jarf), jar_sum));
    // The jar is accepted; there are no dependencies, so the artifact is
    // done, and with it the run.
    assert(step_allowed(root, repos, roots, states[12].pending, states[12].next_root, states[12].status, events[12], states[13]));
    let m12 = choose|m: Move| {
        &&& frame_move(root, repos, states[12].pending.last(), events[12], m)
        &&& states[13] == settled(root, roots, states[12].pending.drop_last(), states[12].next_root, m)
    };
    let w = v->Some_0;
    assert(declared_dependencies(w.spec_pom()) =~= Seq::<Dependency>::empty());
    assert(first_unmanaged(declared_dependencies(w.spec_pom()), w.ancestors(), 0) is None);
    assert(moved(m12).deps.len() == 0);
    assert(m12 is Complete);
    assert(states[12].pending.drop_last() =~= Seq::<Progress>::empty());
}

/// A single declared artifact whose descriptor, jar and sidecars are all in
/// the cache and confirm each other, where the descriptor names no parent and
/// declares no dependencies. Then the run only looks into the cache and reads
/// it, never fetches or writes a file, and finishes.
pub proof fn lemma_single_artifact_cached_run(
    root: Seq<char>,
    repos: Seq<String>,
    a: Artifact,
    pom_text: Seq<char>,
    pom_sum: Seq<u8>,
    events: Seq<Event>,
    states: Seq<StepEnd>,
)
    requires
        descriptor_reads(pom_text),
        parent_of(pom_text) is None,
        last_child(doc_of(pom_text)->Some_0, 0, "dependencies"@) is None,
        sidecar_verdict(encode_utf8(pom_text), pom_sum) is Valid,
        events.len() == 6,
        events[0] == Event::Done,
        events[1] == Event::Exists(true),
        events[2] matches Event::Text(t) && t@ == pom_text,
        events[3] == Event::Exists(true),
        events[4] matches Event::Bytes(b) && b@ == pom_sum,
        events[5] == Event::Exists(true),
        states.len() == 7,
        states[0] == (StepEnd {
            pending: seq![fresh(a, false)],
            next_root: 0,
            req: Req::CreateDir(artifact_dir(root, a)),
            status: Status::Running,
        }),
        forall|i: int|
            0 <= i < 6 ==> step_allowed(
                root,
                repos,
                seq![a],
                #[trigger] states[i].pending,
                states[i].next_root,
                states[i].status,
                events[i],
                states[i + 1],
            ),
    ensures
        states[1].req == Req::CheckExists(artifact_file(root, a, "pom"@)),
        states[2].req == Req::ReadText(artifact_file(root, a, "pom"@)),
        states[3].req == Req::CheckExists(sidecar_of(artifact_file(root, a, "pom"@))),
        states[4].req == Req::ReadBytes(sidecar_of(artifact_file(root, a, "pom"@))),
        states[5].req == Req::CheckExists(artifact_file(root, a, "jar"@)),
        states[6].req == Req::Finished,
        states[6].status == Status::Succeeded,
{
    let roots = seq![a];
    let pom = artifact_file(root, a, "pom"@);
    let p0 = fresh(a, false);
    assert(step_allowed(root, repos, roots, states[0].pending, states[0].next_root, states[0].status, events[0], states[1]));
    let p1 = Progress { stage: Stage::PomCached, ..p0 };
    lemma_wait_step(root, repos, roots, states[0], events[0], states[1], p1, Req::CheckExists(pom));
    assert(step_allowed(root, repos, roots, states[1].pending, states[1].next_root, states[1].status, events[1], states[2]));
    let p2 = Progress { stage: Stage::PomRead, ..p1 };
    lemma_wait_step(root, repos, roots, states[1], events[1], states[2], p2, Req::ReadText(pom));
    assert(step_allowed(root, repos, roots, states[2].pending, states[2].next_root, states[2].status, events[2], states[3]));
    let p3 = Progress { stage: Stage::PomSumCached, pom_text, found_in: None, ..p2 };
    lemma_wait_step(root, repos, roots, states[2], events[2], states[3], p3, Req::CheckExists(sidecar_of(pom)));
    assert(step_allowed(root, repos, roots, states[3].pending, states[3].next_root, states[3].status, events[3], states[4]));
    let p4 = Progress { stage: Stage::PomSumRead, ..p3 };
    lemma_wait_step(root, repos, roots, states[3], events[3], states[4], p4, Req::ReadBytes(sidecar_of(pom)));
    assert(step_allowed(root, repos, roots, states[4].pending, states[4].next_root, states[4].status, events[4], states[5]));
    let m4 = choose|m: Move| {
        &&& frame_move(root, repos, states[4].pending.last(), events[4], m)
        &&& states[5] == settled(root, roots, states[4].pending.drop_last(), states[4].next_root, m)
    };
    let v = moved(m4).view;
    let p5 = Progress { stage: Stage::JarCached, view: v, ..p4 };
    assert(m4 == Move::Wait(p5, Req::CheckExists(artifact_file(root, a, "jar"@))));
    assert(states[4].pending.drop_last().push(p5) =~= seq![p5]);
    assert(states[5] == (StepEnd {
        pending: seq![p5],
        next_root: 0,
        req: Req::CheckExists(artifact_file(root, a, "jar"@)),
        status: Status::Running,
    }));
    assert(step_allowed(root, repos, roots, states[5].pending, states[5].next_root, states[5].status, events[5], states[6]));
    let m5 = choose|m: Move| {
        &&& frame_move(root, repos, states[5].pending.last(), events[5], m)
        &&& states[6] == settled(root, roots, states[5].pending.drop_last(), states[5].next_root, m)
    };
    let w = v->Some_0;
    assert(declared_dependencies(w.spec_pom()) =~= Seq::<Dependency>::empty());
    assert(first_unmanaged(declared_dependencies(w.spec_pom()), w.ancestors(), 0) is None);
    assert(moved(m5).deps.len() == 0);
    assert(m5 is Complete);
    assert(states[5].pending.drop_last() =~= Seq::<Progress>::empty());
}

} // verus!
