//! What the compile stage runs: which files are Java sources, and the
//! `javac` command for one source directory.
use vstd::prelude::*;

use crate::text::ends_with_text;

verus! {

/// Where a project keeps its main Java sources, below its root.
pub const SOURCES: &'static str = "src/main/java";

/// Where the compiled classes go, below the project root.
pub const TARGET_MAIN: &'static str = "target/classes";

/// Whether a file of this name is a Java source file.
pub fn is_java_source(name: &str) -> (r: bool)
    ensures
        r == ".java"@.is_suffix_of(name@),
{
    ends_with_text(name, ".java")
}

/// The `javac` command line that compiles `sources`, found below
/// `source_dir`, into `classes`.
pub fn javac_command(classes: &str, source_dir: &str, sources: &Vec<String>) -> (r: Vec<String>)
    ensures
        r@.map_values(|s: String| s@) == seq!["javac"@, "-d"@, classes@, "-sourcepath"@, source_dir@]
            + sources@.map_values(|s: String| s@),
{
    let mut r: Vec<String> = Vec::new();
    r.push("javac".to_owned());
    r.push("-d".to_owned());
    r.push(classes.to_owned());
    r.push("-sourcepath".to_owned());
    r.push(source_dir.to_owned());
    let ghost head = seq!["javac"@, "-d"@, classes@, "-sourcepath"@, source_dir@];
    assert(r@.map_values(|s: String| s@) =~= head);
    let mut i: usize = 0;
    while i < sources.len()
        invariant
            i <= sources@.len(),
            head == seq!["javac"@, "-d"@, classes@, "-sourcepath"@, source_dir@],
            r@.map_values(|s: String| s@) == head + sources@.subrange(0, i as int).map_values(
                |s: String| s@,
            ),
        decreases sources@.len() - i,
    {
        let ghost before = r@;
        r.push(sources[i].clone());
        assert(sources@.subrange(0, i + 1) =~= sources@.subrange(0, i as int).push(sources@[i as int]));
        assert(r@.map_values(|s: String| s@) =~= before.map_values(|s: String| s@).push(sources@[i as int]@));
        assert(r@.map_values(|s: String| s@) =~= head + sources@.subrange(0, i + 1).map_values(
            |s: String| s@,
        ));
        i = i + 1;
    }
    assert(sources@.subrange(0, i as int) =~= sources@);
    r
}

} // verus!
