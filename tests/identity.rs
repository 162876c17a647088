use jargo::compile::{is_java_source, javac_command};
use jargo::cache::{make_artifact_dir, make_artifact_file, make_metadata_file, make_sidecar};
use jargo::config::Config;
use jargo::project::{dependencies, repositories, strip_first_last, Artifact, ProjectError};
use jargo::remote::{make_metadata_url, make_remote_file, resolve_version};
use jargo::text::{ends_with_text, same_text};

#[test]
fn artifact_path_replaces_dots() {
    let a = Artifact::new("org.hamcrest", "hamcrest-core", "1.1");
    assert_eq!(a.path, "org/hamcrest/hamcrest-core/1.1");
    assert_eq!(a.group, "org.hamcrest");
    let b = Artifact::new("junit", "junit", "4.12");
    assert_eq!(b.path, "junit/junit/4.12");
    let c = Artifact::new("", "n", "v");
    assert_eq!(c.path, "/n/v");
}

#[test]
fn snapshot_detection() {
    assert!(Artifact::new("g", "n", "1.0-SNAPSHOT").is_snapshot());
    assert!(!Artifact::new("g", "n", "1.0").is_snapshot());
    assert!(!Artifact::new("g", "n", "SNAPSHOT").is_snapshot());
    assert!(Artifact::new("g", "n", "-SNAPSHOT").is_snapshot());
}

#[test]
fn snapshot_version_is_expanded() {
    let a = Artifact::new("g", "n", "1.0-SNAPSHOT");
    assert_eq!(resolve_version(&a, Some("20230101.120000-7")), "1.0-20230101.120000-7");
    let b = Artifact::new("g", "n", "1.2.3-SNAPSHOT");
    assert_eq!(resolve_version(&b, Some("20230101.120000-7")), "1.2.3-20230101.120000-7");
    assert_eq!(resolve_version(&a, None), "1.0-SNAPSHOT");
    let c = Artifact::new("g", "n", "1.0");
    assert_eq!(resolve_version(&c, Some("20230101.120000-7")), "1.0");
}

#[test]
fn table_entry_is_split() {
    let a = Artifact::from_table_entry("org.hamcrest:hamcrest-core", "\"1.1\"".to_string()).unwrap();
    assert_eq!(a.group, "org.hamcrest");
    assert_eq!(a.name, "hamcrest-core");
    assert_eq!(a.version, "1.1");
    assert_eq!(a.path, "org/hamcrest/hamcrest-core/1.1");
}

#[test]
fn table_entry_needs_one_colon() {
    for bad in ["junit", "a:b:c", ""] {
        match Artifact::from_table_entry(bad, "\"1\"".to_string()) {
            Err(ProjectError::MalformedDependency { entry }) => assert_eq!(entry, bad),
            Ok(a) => panic!("accepted {:?}", a),
        }
    }
}

#[test]
fn quotes_are_stripped() {
    assert_eq!(strip_first_last("\"abc\"".to_string()), "abc");
    assert_eq!(strip_first_last("\"\"".to_string()), "");
}

#[test]
fn default_repository_comes_first() {
    let r = repositories(&vec![Some("https://a.example/m2".to_string()), None, Some("https://b".to_string())]);
    assert_eq!(r, vec!["https://repo.maven.apache.org/maven2", "https://a.example/m2", "https://b"]);
    assert_eq!(repositories(&vec![]), vec!["https://repo.maven.apache.org/maven2"]);
}

#[test]
fn dependency_entries_become_artifacts() {
    let deps = dependencies(&vec![
        ("junit:junit".to_string(), "\"4.12\"".to_string()),
        ("org.a:b".to_string(), "\"2\"".to_string()),
    ])
    .unwrap();
    assert_eq!(deps.len(), 2);
    assert_eq!(deps[1].path, "org/a/b/2");
    assert!(dependencies(&vec![("junit".to_string(), "\"4.12\"".to_string())]).is_err());
}

#[test]
fn config_places_cache_under_home() {
    let c = Config::new("/home/u");
    assert_eq!(c.cache_location, "/home/u/jargo/repo");
    assert_eq!(c.user_home, "/home/u");
}

#[test]
fn cache_and_remote_layout() {
    let a = Artifact::new("org.hamcrest", "hamcrest-core", "1.1");
    assert_eq!(make_artifact_dir("/c", &a), "/c/org/hamcrest/hamcrest-core/1.1");
    assert_eq!(make_artifact_file("/c", &a, "pom"), "/c/org/hamcrest/hamcrest-core/1.1/hamcrest-core-1.1.pom");
    assert_eq!(make_sidecar("/x.jar"), "/x.jar.sha1");
    assert_eq!(make_metadata_file("/c", &a), "/c/org/hamcrest/hamcrest-core/1.1/maven-metadata.xml");
    assert_eq!(
        make_remote_file("https://r", &a, "1.1", "jar"),
        "https://r/org/hamcrest/hamcrest-core/1.1/hamcrest-core-1.1.jar"
    );
    assert_eq!(make_metadata_url("https://r", &a), "https://r/org/hamcrest/hamcrest-core/1.1/maven-metadata.xml");
}

#[test]
fn text_helpers() {
    assert!(same_text("abc", "abc"));
    assert!(!same_text("abc", "abd"));
    assert!(!same_text("abc", "ab"));
    assert!(ends_with_text("1.0-SNAPSHOT", "-SNAPSHOT"));
    assert!(!ends_with_text("T", "-SNAPSHOT"));
}

#[test]
fn java_sources_and_javac_command() {
    assert!(is_java_source("Main.java"));
    assert!(!is_java_source("Main.class"));
    assert!(!is_java_source("java"));
    let cmd = javac_command("/p/target/classes", "/p/src/main/java/a", &vec!["/p/src/main/java/a/A.java".to_string()]);
    assert_eq!(
        cmd,
        vec!["javac", "-d", "/p/target/classes", "-sourcepath", "/p/src/main/java/a", "/p/src/main/java/a/A.java"]
    );
}
