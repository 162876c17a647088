use jargo::maven::metadata::Metadata;
use jargo::maven::pom::Pom;
use jargo::maven::pom_view::{search_version, PomView, ViewError};
use jargo::maven::xml::ReadError;
use jargo::remote::load_snapshot_build_nr;

const MOCKITO: &str = r#"<?xml version="1.0" encoding="UTF-8"?>
<project xmlns="http://maven.apache.org/POM/4.0.0" xmlns:xsi="http://www.w3.org/2001/XMLSchema-instance"
    xsi:schemaLocation="http://maven.apache.org/POM/4.0.0 http://maven.apache.org/maven-v4_0_0.xsd ">
    <modelVersion>4.0.0</modelVersion>
    <groupId>org.mockito</groupId>
    <artifactId>mockito-core</artifactId>
    <version>1.9.5</version>
    <name>Mockito</name>
    <packaging>jar</packaging>
    <url>http://www.mockito.org</url>
    <description>Mock objects library for java</description>
    <licenses>
        <license>
            <name>The MIT License</name>
            <url>http://code.google.com/p/mockito/wiki/License</url>
            <distribution>repo</distribution>
        </license>
    </licenses>
    <scm>
        <url>http://code.google.com/p/mockito/source/browse/</url>
    </scm>
    <developers>
        <developer>
            <id>szczepiq</id>
            <name>Szczepan Faber</name>
        </developer>
    </developers>
    <dependencies>
        <dependency>
            <groupId>org.hamcrest</groupId>
            <artifactId>hamcrest-core</artifactId>
            <version>1.1</version>
        </dependency>
        <dependency>
            <groupId>org.objenesis</groupId>
            <artifactId>objenesis</artifactId>
            <version>1.0</version>
        </dependency>
    </dependencies>
</project>
"#;

const PARENT: &str = r#"<project>
    <modelVersion>4.0.0</modelVersion>
    <groupId>org.example</groupId>
    <artifactId>parent</artifactId>
    <version>7</version>
    <packaging>pom</packaging>
    <dependencyManagement>
        <dependencies>
            <dependency>
                <groupId>com.acme</groupId>
                <artifactId>lib</artifactId>
                <version>2.3</version>
            </dependency>
        </dependencies>
    </dependencyManagement>
</project>"#;

fn child(dep_group: &str, dep_name: &str) -> String {
    format!(
        r#"<project>
    <modelVersion>4.0.0</modelVersion>
    <parent>
        <groupId>org.example</groupId>
        <artifactId>parent</artifactId>
        <version>7</version>
    </parent>
    <artifactId>child</artifactId>
    <dependencies>
        <dependency>
            <groupId>{}</groupId>
            <artifactId>{}</artifactId>
        </dependency>
        <dependency>
            <groupId>org.fixed</groupId>
            <artifactId>pinned</artifactId>
            <version>1.0</version>
        </dependency>
    </dependencies>
</project>"#,
        dep_group, dep_name
    )
}

#[test]
fn pom_parse_should_not_fail() {
    Pom::from_str(MOCKITO).unwrap();
}

#[test]
fn model_parse_should_not_fail() {
    jargo::pom::model::Pom::from_str(MOCKITO).unwrap();
}

#[test]
fn pom_fields_are_read() {
    let pom = Pom::from_str(MOCKITO).unwrap();
    assert_eq!(pom.model_version.value, "4.0.0");
    assert_eq!(pom.artifact_id.value, "mockito-core");
    assert_eq!(pom.group_id.as_ref().unwrap().value, "org.mockito");
    assert_eq!(pom.version.as_ref().unwrap().value, "1.9.5");
    let deps = &pom.dependencies.as_ref().unwrap().value;
    assert_eq!(deps.len(), 2);
    assert_eq!(deps[1].artifact_id.value, "objenesis");
    assert_eq!(deps[1].version.as_ref().unwrap().value, "1.0");
    assert!(pom.parent.is_none());
}

#[test]
fn pom_without_artifact_id_is_refused() {
    let r = Pom::from_str("<project><modelVersion>4.0.0</modelVersion></project>");
    match r {
        Err(ReadError::MissingField { field, .. }) => assert_eq!(field, "artifact_id"),
        other => panic!("unexpected {:?}", other),
    }
}

#[test]
fn malformed_pom_is_refused() {
    assert!(Pom::from_str("<project><modelVersion>4.0.0</project>").is_err());
}

#[test]
fn view_takes_managed_version_from_parent() {
    let parent = PomView::new(Pom::from_str(PARENT).unwrap(), None);
    let view = PomView::new(Pom::from_str(&child("com.acme", "lib")).unwrap(), Some(parent));
    let deps = view.dependencies().unwrap();
    assert_eq!(deps.len(), 2);
    assert_eq!(deps[0].group, "com.acme");
    assert_eq!(deps[0].name, "lib");
    assert_eq!(deps[0].version, "2.3");
    assert_eq!(deps[0].path, "com/acme/lib/2.3");
    assert_eq!(deps[1].version, "1.0");
}

#[test]
fn view_without_managed_version_fails() {
    let parent = PomView::new(Pom::from_str(PARENT).unwrap(), None);
    let view = PomView::new(Pom::from_str(&child("com.acme", "other")).unwrap(), Some(parent));
    match view.dependencies() {
        Err(ViewError::MissingManagedVersion { group, name }) => {
            assert_eq!(group, "com.acme");
            assert_eq!(name, "other");
        }
        other => panic!("unexpected {:?}", other.map(|v| v.len())),
    }
}

#[test]
fn view_without_parent_fails_on_unversioned_dependency() {
    let view = PomView::new(Pom::from_str(&child("com.acme", "lib")).unwrap(), None);
    assert!(matches!(view.dependencies(), Err(ViewError::MissingManagedVersion { .. })));
}

#[test]
fn view_version_is_inherited() {
    let parent = PomView::new(Pom::from_str(PARENT).unwrap(), None);
    let view = PomView::new(Pom::from_str(&child("com.acme", "lib")).unwrap(), Some(parent));
    assert_eq!(view.version().unwrap(), "7");
    assert_eq!(view.artifact_id(), "child");
    assert_eq!(view.group_id(), None);
    let p = view.parent().unwrap();
    assert_eq!(p.group_id(), "org.example");
    assert_eq!(p.artifact_id(), "parent");
    assert_eq!(p.version(), "7");
    let lone = PomView::new(Pom::from_str(&child("com.acme", "lib")).unwrap(), None);
    assert!(matches!(lone.version(), Err(ViewError::MissingVersion)));
}

#[test]
fn view_getters() {
    let view = PomView::new(Pom::from_str(MOCKITO).unwrap(), None);
    assert_eq!(view.model_version(), "4.0.0");
    assert_eq!(view.name().unwrap(), "Mockito");
    assert_eq!(view.packaging().unwrap(), "jar");
    assert_eq!(view.url().unwrap(), "http://www.mockito.org");
    assert_eq!(view.description().unwrap(), "Mock objects library for java");
    assert!(view.dependency_management().is_empty());
    assert!(view.parent().is_none());
}

#[test]
fn search_version_takes_first_match() {
    let parent = Pom::from_str(PARENT).unwrap();
    let view = PomView::new(parent, None);
    let c = Pom::from_str(&child("com.acme", "lib")).unwrap();
    let dep = &c.dependencies.as_ref().unwrap().value[0];
    assert_eq!(search_version(dep, view.dependency_management()), Some("2.3".to_string()));
    let other = &c.dependencies.as_ref().unwrap().value[1];
    assert_eq!(search_version(other, view.dependency_management()), None);
}

const METADATA: &str = r#"<?xml version="1.0" encoding="UTF-8"?>
<metadata modelVersion="1.1.0">
  <groupId>org.example</groupId>
  <artifactId>lib</artifactId>
  <version>1.0-SNAPSHOT</version>
  <versioning>
    <snapshot>
      <timestamp>20230101.120000</timestamp>
      <buildNumber>7</buildNumber>
    </snapshot>
    <lastUpdated>20230101120000</lastUpdated>
    <snapshotVersions>
      <snapshotVersion>
        <extension>jar</extension>
        <value>1.0-20230101.120000-7</value>
        <updated>20230101120000</updated>
      </snapshotVersion>
      <snapshotVersion>
        <classifier>sources</classifier>
        <extension>jar</extension>
        <value>1.0-20230101.120000-7</value>
        <updated>20230101120000</updated>
      </snapshotVersion>
    </snapshotVersions>
  </versioning>
</metadata>"#;

#[test]
fn metadata_is_read() {
    let m = Metadata::from_str(METADATA).unwrap();
    assert_eq!(m.versioning.snapshot.timestamp.value, "20230101.120000");
    assert_eq!(m.versioning.snapshot.build_number.value, "7");
    assert_eq!(m.versioning.snapshot_versions.snapshot_versions.len(), 2);
    assert!(m.versioning.snapshot_versions.snapshot_versions[1].classifier.is_some());
}

#[test]
fn snapshot_build_label_from_metadata() {
    assert_eq!(load_snapshot_build_nr(METADATA).unwrap(), "20230101.120000-7");
    assert!(load_snapshot_build_nr("<metadata>").is_err());
}

#[test]
fn text_is_unescaped_and_cdata_kept() {
    let pom = Pom::from_str(
        "<project><modelVersion>4.0.0</modelVersion><artifactId>a&amp;b</artifactId><name><![CDATA[x &amp; y]]></name></project>",
    )
    .unwrap();
    assert_eq!(pom.artifact_id.value, "a&b");
    assert_eq!(pom.name.unwrap().value, "x &amp; y");
}

#[test]
fn wrong_root_or_nesting_is_malformed() {
    assert!(matches!(
        Pom::from_str("<metadata><modelVersion>4.0.0</modelVersion><artifactId>a</artifactId></metadata>"),
        Err(ReadError::Malformed)
    ));
    assert!(matches!(
        Pom::from_str("<project><modelVersion>4.0.0</version><artifactId>a</artifactId></project>"),
        Err(ReadError::Malformed) | Err(ReadError::Xml(_))
    ));
    assert!(matches!(Metadata::from_str("<metadata>"), Err(ReadError::Malformed) | Err(ReadError::Xml(_))));
}

#[test]
fn unknown_reference_is_refused() {
    assert!(matches!(
        Pom::from_str("<project><modelVersion>4.0.0</modelVersion><artifactId>a&bogus;</artifactId></project>"),
        Err(ReadError::Xml(_))
    ));
}

#[test]
fn last_repeated_element_counts() {
    let pom = Pom::from_str(
        "<project><modelVersion>4.0.0</modelVersion><artifactId>first</artifactId><artifactId>second</artifactId></project>",
    )
    .unwrap();
    assert_eq!(pom.artifact_id.value, "second");
}
