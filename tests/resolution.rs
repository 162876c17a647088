use std::collections::{HashMap, HashSet};

use jargo::deploader::{load, Action, Event, Loader, ResolveError};
use jargo::project::{Artifact, Project};
use sha1::{Digest, Sha1};

const CENTRAL: &str = "https://repo.maven.apache.org/maven2";
const ROOT: &str = "/cache";

/// A cache directory and a set of repositories, held in memory.
#[derive(Default)]
struct World {
    dirs: HashSet<String>,
    files: HashMap<String, Vec<u8>>,
    remote: HashMap<String, Vec<u8>>,
    requests: Vec<String>,
}

impl World {
    fn answer(&mut self, action: &Action) -> Event {
        match action {
            Action::CreateDir { path } => {
                self.dirs.insert(path.clone());
                Event::Done
            }
            Action::CheckExists { path } => Event::Exists(self.files.contains_key(path)),
            Action::ReadText { path } => Event::Text(String::from_utf8(self.files[path].clone()).unwrap()),
            Action::ReadBytes { path } => Event::Bytes(self.files[path].clone()),
            Action::FetchText { url } => {
                self.requests.push(url.clone());
                match self.remote.get(url) {
                    Some(b) => Event::Text(String::from_utf8(b.clone()).unwrap()),
                    None => Event::NotFound,
                }
            }
            Action::FetchBytes { url } => {
                self.requests.push(url.clone());
                match self.remote.get(url) {
                    Some(b) => Event::Bytes(b.clone()),
                    None => Event::NotFound,
                }
            }
            Action::WriteText { path, text } => {
                self.files.insert(path.clone(), text.as_bytes().to_vec());
                Event::Done
            }
            Action::WriteBytes { path, bytes } => {
                self.files.insert(path.clone(), bytes.clone());
                Event::Done
            }
            Action::Finished | Action::Failed { .. } => unreachable!(),
        }
    }

    fn publish(&mut self, url: &str, content: &[u8], with_sidecar: bool) {
        self.remote.insert(url.to_string(), content.to_vec());
        if with_sidecar {
            self.remote.insert(format!("{}.sha1", url), hex::encode(Sha1::digest(content)).into_bytes());
        }
    }

    /// Runs a resolution to its end; gives the final action.
    fn run(&mut self, project: &Project) -> Action {
        let (mut loader, mut action): (Loader, Action) = load(project, ROOT);
        let mut steps = 0;
        loop {
            match action {
                Action::Finished | Action::Failed { .. } => return action,
                _ => {}
            }
            let event = self.answer(&action);
            action = loader.step(event);
            steps += 1;
            assert!(steps < 10_000);
        }
    }
}

fn project(deps: Vec<Artifact>, repositories: Vec<&str>) -> Project {
    Project {
        group: "org.example".to_string(),
        name: "app".to_string(),
        version: "1.0".to_string(),
        main_dependencies: deps,
        test_dependencies: vec![],
        project_root: ".".to_string(),
        repositories: repositories.into_iter().map(|s| s.to_string()).collect(),
    }
}

fn pom(group: &str, name: &str, version: &str, extra: &str) -> String {
    format!(
        "<project><modelVersion>4.0.0</modelVersion><groupId>{}</groupId><artifactId>{}</artifactId><version>{}</version>{}</project>",
        group, name, version, extra
    )
}

fn hamcrest_world() -> World {
    let mut w = World::default();
    let base = format!("{}/org/hamcrest/hamcrest-core/1.1/hamcrest-core-1.1", CENTRAL);
    w.publish(&format!("{}.pom", base), pom("org.hamcrest", "hamcrest-core", "1.1", "").as_bytes(), true);
    w.publish(&format!("{}.jar", base), b"PK\x03\x04 hamcrest classes", true);
    w
}

#[test]
fn hamcrest_core_end_to_end() {
    let mut w = hamcrest_world();
    let p = project(vec![Artifact::new("org.hamcrest", "hamcrest-core", "1.1")], vec![CENTRAL]);
    assert!(matches!(w.run(&p), Action::Finished));
    assert!(w.dirs.contains("/cache/org/hamcrest/hamcrest-core/1.1"));
    for f in ["hamcrest-core-1.1.pom", "hamcrest-core-1.1.pom.sha1", "hamcrest-core-1.1.jar", "hamcrest-core-1.1.jar.sha1"] {
        assert!(w.files.contains_key(&format!("/cache/org/hamcrest/hamcrest-core/1.1/{}", f)), "{}", f);
    }
    assert_eq!(w.requests.len(), 4);
}

#[test]
fn populated_cache_issues_no_requests() {
    let mut w = hamcrest_world();
    let p = project(vec![Artifact::new("org.hamcrest", "hamcrest-core", "1.1")], vec![CENTRAL]);
    assert!(matches!(w.run(&p), Action::Finished));
    let files_after_first = w.files.clone();
    w.requests.clear();
    w.remote.clear();
    assert!(matches!(w.run(&p), Action::Finished));
    assert!(w.requests.is_empty());
    assert_eq!(w.files, files_after_first);
}

#[test]
fn second_repository_serves_the_descriptor() {
    let r1 = "https://one.example/m2";
    let r2 = "https://two.example/m2";
    let mut w = World::default();
    let base = format!("{}/com/acme/lib/1.0/lib-1.0", r2);
    w.publish(&format!("{}.pom", base), pom("com.acme", "lib", "1.0", "").as_bytes(), true);
    w.publish(&format!("{}.jar", base), b"jar bytes", true);
    let p = project(vec![Artifact::new("com.acme", "lib", "1.0")], vec![r1, r2]);
    assert!(matches!(w.run(&p), Action::Finished));
    assert_eq!(w.requests[0], format!("{}/com/acme/lib/1.0/lib-1.0.pom", r1));
    assert_eq!(w.requests[1], format!("{}.pom", base));
    // The jar and the sidecars come from the repository that had the descriptor.
    assert!(w.requests[2..].iter().all(|u| u.starts_with(r2)));
    assert!(w.requests.contains(&format!("{}.jar", base)));
}

#[test]
fn no_repository_has_the_descriptor() {
    let mut w = World::default();
    let p = project(vec![Artifact::new("com.acme", "lib", "1.0")], vec!["https://a", "https://b"]);
    match w.run(&p) {
        Action::Failed { error: ResolveError::ExhaustedRepositories { artifact } } => {
            assert_eq!(artifact, "com/acme/lib/1.0")
        }
        other => panic!("unexpected {:?}", other),
    }
    assert_eq!(w.requests.len(), 2);
}

#[test]
fn snapshot_is_fetched_under_its_build() {
    let mut w = World::default();
    let dir = format!("{}/org/example/lib/1.0-SNAPSHOT", CENTRAL);
    let metadata = "<metadata><groupId>org.example</groupId><artifactId>lib</artifactId><version>1.0-SNAPSHOT</version><versioning><snapshot><timestamp>20230101.120000</timestamp><buildNumber>7</buildNumber></snapshot><lastUpdated>20230101120000</lastUpdated><snapshotVersions></snapshotVersions></versioning></metadata>";
    w.publish(&format!("{}/maven-metadata.xml", dir), metadata.as_bytes(), false);
    w.publish(&format!("{}/lib-1.0-20230101.120000-7.pom", dir), pom("org.example", "lib", "1.0-SNAPSHOT", "").as_bytes(), true);
    w.publish(&format!("{}/lib-1.0-20230101.120000-7.jar", dir), b"snapshot jar", true);
    let p = project(vec![Artifact::new("org.example", "lib", "1.0-SNAPSHOT")], vec![CENTRAL]);
    assert!(matches!(w.run(&p), Action::Finished));
    assert!(w.files.contains_key("/cache/org/example/lib/1.0-SNAPSHOT/maven-metadata.xml"));
    assert!(w.files.contains_key("/cache/org/example/lib/1.0-SNAPSHOT/lib-1.0-SNAPSHOT.jar"));
    assert!(w.requests.contains(&format!("{}/lib-1.0-20230101.120000-7.jar", dir)));
}

#[test]
fn tampered_jar_is_refused() {
    let mut w = hamcrest_world();
    let jar = format!("{}/org/hamcrest/hamcrest-core/1.1/hamcrest-core-1.1.jar", CENTRAL);
    w.remote.insert(jar.clone(), b"something else".to_vec());
    let p = project(vec![Artifact::new("org.hamcrest", "hamcrest-core", "1.1")], vec![CENTRAL]);
    match w.run(&p) {
        Action::Failed { error: ResolveError::ChecksumInvalid { resource } } => assert_eq!(resource, jar),
        other => panic!("unexpected {:?}", other),
    }
}

#[test]
fn missing_sidecars_are_skipped() {
    let mut w = World::default();
    let base = format!("{}/com/acme/lib/1.0/lib-1.0", CENTRAL);
    w.publish(&format!("{}.pom", base), pom("com.acme", "lib", "1.0", "").as_bytes(), false);
    w.publish(&format!("{}.jar", base), b"jar", false);
    let p = project(vec![Artifact::new("com.acme", "lib", "1.0")], vec![CENTRAL]);
    assert!(matches!(w.run(&p), Action::Finished));
}

#[test]
fn missing_jar_is_fatal() {
    let mut w = World::default();
    let base = format!("{}/com/acme/lib/1.0/lib-1.0", CENTRAL);
    w.publish(&format!("{}.pom", base), pom("com.acme", "lib", "1.0", "").as_bytes(), true);
    let p = project(vec![Artifact::new("com.acme", "lib", "1.0")], vec![CENTRAL]);
    match w.run(&p) {
        Action::Failed { error: ResolveError::JarNotFound { url } } => assert_eq!(url, format!("{}.jar", base)),
        other => panic!("unexpected {:?}", other),
    }
}

#[test]
fn dependencies_and_parents_are_resolved() {
    let mut w = World::default();
    let parent = pom(
        "org.example",
        "parent",
        "7",
        "<packaging>pom</packaging><dependencyManagement><dependencies><dependency><groupId>com.acme</groupId><artifactId>leaf</artifactId><version>2.3</version></dependency></dependencies></dependencyManagement>",
    );
    w.publish(&format!("{}/org/example/parent/7/parent-7.pom", CENTRAL), parent.as_bytes(), true);
    let top = "<project><modelVersion>4.0.0</modelVersion><parent><groupId>org.example</groupId><artifactId>parent</artifactId><version>7</version></parent><artifactId>top</artifactId><version>1.0</version><dependencies><dependency><groupId>com.acme</groupId><artifactId>leaf</artifactId></dependency></dependencies></project>";
    w.publish(&format!("{}/org/example/top/1.0/top-1.0.pom", CENTRAL), top.as_bytes(), true);
    w.publish(&format!("{}/org/example/top/1.0/top-1.0.jar", CENTRAL), b"top jar", true);
    w.publish(&format!("{}/com/acme/leaf/2.3/leaf-2.3.pom", CENTRAL), pom("com.acme", "leaf", "2.3", "").as_bytes(), true);
    w.publish(&format!("{}/com/acme/leaf/2.3/leaf-2.3.jar", CENTRAL), b"leaf jar", true);
    let p = project(vec![Artifact::new("org.example", "top", "1.0")], vec![CENTRAL]);
    assert!(matches!(w.run(&p), Action::Finished));
    assert!(w.files.contains_key("/cache/org/example/parent/7/parent-7.pom"));
    assert!(!w.files.contains_key("/cache/org/example/parent/7/parent-7.jar"));
    assert!(w.files.contains_key("/cache/com/acme/leaf/2.3/leaf-2.3.jar"));
}

#[test]
fn unmanaged_dependency_fails_the_run() {
    let mut w = World::default();
    let top = pom("org.example", "top", "1.0", "<dependencies><dependency><groupId>com.acme</groupId><artifactId>leaf</artifactId></dependency></dependencies>");
    w.publish(&format!("{}/org/example/top/1.0/top-1.0.pom", CENTRAL), top.as_bytes(), true);
    w.publish(&format!("{}/org/example/top/1.0/top-1.0.jar", CENTRAL), b"top jar", true);
    let p = project(vec![Artifact::new("org.example", "top", "1.0")], vec![CENTRAL]);
    match w.run(&p) {
        Action::Failed { error: ResolveError::MissingManagedVersion { group, name } } => {
            assert_eq!((group.as_str(), name.as_str()), ("com.acme", "leaf"))
        }
        other => panic!("unexpected {:?}", other),
    }
}

#[test]
fn empty_project_finishes_at_once() {
    let p = project(vec![], vec![CENTRAL]);
    let (_, action) = load(&p, ROOT);
    assert!(matches!(action, Action::Finished));
}

#[test]
fn transport_failure_stops_the_run() {
    let p = project(vec![Artifact::new("com.acme", "lib", "1.0")], vec![CENTRAL]);
    let (mut loader, action) = load(&p, ROOT);
    assert!(matches!(action, Action::CreateDir { .. }));
    assert!(matches!(loader.step(Event::Done), Action::CheckExists { .. }));
    assert!(matches!(loader.step(Event::Exists(false)), Action::FetchText { .. }));
    match loader.step(Event::Failed("connection reset".to_string())) {
        Action::Failed { error: ResolveError::Io { message } } => assert_eq!(message, "connection reset"),
        other => panic!("unexpected {:?}", other),
    }
    assert!(matches!(loader.step(Event::Done), Action::Failed { .. }));
}

#[test]
fn unreadable_sidecar_stops_the_run() {
    let mut w = World::default();
    let base = format!("{}/com/acme/lib/1.0/lib-1.0", CENTRAL);
    w.publish(&format!("{}.pom", base), pom("com.acme", "lib", "1.0", "").as_bytes(), false);
    w.remote.insert(format!("{}.pom.sha1", base), b"not hex".to_vec());
    let p = project(vec![Artifact::new("com.acme", "lib", "1.0")], vec![CENTRAL]);
    match w.run(&p) {
        Action::Failed { error: ResolveError::ChecksumUnreadable { resource } } => assert_eq!(resource, "com/acme/lib/1.0"),
        other => panic!("unexpected {:?}", other),
    }
}

#[test]
fn unparsable_descriptor_stops_the_run() {
    let mut w = World::default();
    let base = format!("{}/com/acme/lib/1.0/lib-1.0", CENTRAL);
    w.publish(&format!("{}.pom", base), b"<project><modelVersion>4.0.0</modelVersion></project>", true);
    let p = project(vec![Artifact::new("com.acme", "lib", "1.0")], vec![CENTRAL]);
    match w.run(&p) {
        Action::Failed { error: ResolveError::Parse { resource, .. } } => assert_eq!(resource, "com/acme/lib/1.0"),
        other => panic!("unexpected {:?}", other),
    }
}

#[test]
fn cached_descriptor_without_jar_uses_default_repository() {
    let mut w = World::default();
    w.files.insert(
        "/cache/com/acme/lib/1.0/lib-1.0.pom".to_string(),
        pom("com.acme", "lib", "1.0", "").into_bytes(),
    );
    let jar = format!("{}/com/acme/lib/1.0/lib-1.0.jar", CENTRAL);
    w.publish(&jar, b"jar", true);
    let p = project(vec![Artifact::new("com.acme", "lib", "1.0")], vec!["https://mirror.example", CENTRAL]);
    assert!(matches!(w.run(&p), Action::Finished));
    assert_eq!(w.requests, vec![jar.clone(), format!("{}.sha1", jar)]);
}
