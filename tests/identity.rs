use frill::order::{sorted_set, str_lt};
use frill::paths::{path_extension, path_join, path_parent, relative_path};
use frill::task::{GLSLCompileTask, IncludeError, ShaderStage, StageError};
use frill::text::{join_strings, push_decimal, push_hex};

fn strings(items: &[&str]) -> Vec<String> {
    items.iter().map(|s| s.to_string()).collect()
}

#[test]
fn lexicographic_order() {
    assert!(str_lt("a", "b"));
    assert!(str_lt("ab", "abc"));
    assert!(!str_lt("abc", "ab"));
    assert!(!str_lt("same", "same"));
    assert!(str_lt("", "x"));
    assert!(str_lt("B", "a"));
}

#[test]
fn sorted_set_orders_and_drops_repeats() {
    let r = sorted_set(strings(&["c", "a", "b", "a"]));
    assert_eq!(r, strings(&["a", "b", "c"]));
    assert!(sorted_set(vec![]).is_empty());
}

#[test]
fn hex_and_decimal_rendering() {
    let mut s = String::new();
    push_hex(&mut s, 0x1A2B, 16);
    assert_eq!(s, "0000000000001A2B");
    let mut t = String::from("x");
    push_hex(&mut t, u64::MAX, 16);
    assert_eq!(t, "xFFFFFFFFFFFFFFFF");
    let mut d = String::new();
    push_decimal(&mut d, 0);
    push_decimal(&mut d, 1204);
    assert_eq!(d, "01204");
}

#[test]
fn joining() {
    assert_eq!(join_strings(&strings(&["A", "B", "C"]), ","), "A,B,C");
    assert_eq!(join_strings(&strings(&["A"]), ","), "A");
    assert_eq!(join_strings(&vec![], ","), "");
}

#[test]
fn path_operations() {
    assert_eq!(path_join("/out", "x.spv"), "/out/x.spv");
    assert_eq!(path_join("/out/", "x.spv"), "/out/x.spv");
    assert_eq!(path_join("/out", "/abs/y"), "/abs/y");
    assert_eq!(path_join("", "rel"), "rel");
    assert_eq!(path_extension("/a/b/shader.frag"), Some("frag".to_string()));
    assert_eq!(path_extension("/a.d/b"), None);
    assert_eq!(path_extension("/a/.hidden"), None);
    assert_eq!(path_extension("x.tar.gz"), Some("gz".to_string()));
    assert_eq!(path_parent("/a/b/c.glsl"), Some("/a/b".to_string()));
    assert_eq!(path_parent("c.glsl"), Some(String::new()));
    assert_eq!(path_parent("/c.glsl"), Some("/".to_string()));
    assert_eq!(path_parent("/"), None);
    assert_eq!(relative_path("/src/dir/a.frag", "/src"), Some("dir/a.frag".to_string()));
    assert_eq!(relative_path("/src/dir\\a.frag", "/src/"), Some("dir/a.frag".to_string()));
    assert_eq!(relative_path("/srcx/a.frag", "/src"), None);
    assert_eq!(relative_path("/other/a.frag", "/src"), None);
}

#[test]
fn task_sets_are_value_ordered() {
    let t = GLSLCompileTask::new(
        "/src/a.frag".to_string(),
        strings(&["/inc/b", "/inc/a", "/inc/b"]),
        strings(&["ZED", "ALPHA"]),
    );
    assert_eq!(t.file(), "/src/a.frag");
    assert_eq!(t.include_dirs(), &strings(&["/inc/a", "/inc/b"]));
    assert_eq!(t.defines(), &strings(&["ALPHA", "ZED"]));
}

#[test]
fn include_order_gives_same_identity() {
    let a = GLSLCompileTask::new(
        "/src/a.frag".to_string(),
        strings(&["/inc/one", "/inc/two"]),
        strings(&["FOO"]),
    );
    let b = GLSLCompileTask::new(
        "/src/a.frag".to_string(),
        strings(&["/inc/two", "/inc/one"]),
        strings(&["FOO"]),
    );
    assert_eq!(a.calc_hash(), b.calc_hash());
    assert_eq!(a.output_file_name(), b.output_file_name());
    assert_eq!(a.cache_file_name(), b.cache_file_name());
}

#[test]
fn fingerprint_is_stable_and_tells_tasks_apart() {
    let make = |defs: &[&str]| {
        GLSLCompileTask::new("/src/a.frag".to_string(), strings(&["/inc"]), strings(defs))
    };
    assert_eq!(make(&["FOO"]).calc_hash(), make(&["FOO"]).calc_hash());
    assert_ne!(make(&["FOO"]).calc_hash(), make(&["BAR"]).calc_hash());
    assert_ne!(make(&[]).calc_hash(), make(&["FOO"]).calc_hash());
}

#[test]
fn file_names_follow_the_fingerprint() {
    let t = GLSLCompileTask::new("/src/a.frag".to_string(), vec![], strings(&["X"]));
    let hex = format!("{:016X}", t.calc_hash());
    assert_eq!(t.fingerprint_hex(), hex);
    assert_eq!(t.output_file_name(), format!("{}.spv", hex));
    assert_eq!(t.cache_file_name(), format!("{}.json", hex));
    assert_eq!(t.output_file_name().len(), 20);
}

#[test]
fn summary_and_uri() {
    let t = GLSLCompileTask::new(
        "/src/dir/a.frag".to_string(),
        vec![],
        strings(&["FOO", "BAR"]),
    );
    assert_eq!(t.summary(), "Compiling /src/dir/a.frag BAR,FOO");
    assert_eq!(t.uri("/src"), Some("dir/a.frag/flags=BAR,FOO".to_string()));
    assert_eq!(t.uri("/elsewhere"), None);
    let plain = GLSLCompileTask::new("/src/b.vert".to_string(), vec![], vec![]);
    assert_eq!(plain.uri("/src"), Some("b.vert/flags=".to_string()));
    assert_eq!(plain.summary(), "Compiling /src/b.vert ");
}

#[test]
fn stage_from_extension() {
    let t = GLSLCompileTask::new("/s/a.frag".to_string(), vec![], vec![]);
    assert_eq!(t.shader_kind(), Ok(ShaderStage::Fragment));
    assert_eq!(t.stage_macro(), Some("FRILL_SHADER_STAGE_FRAG".to_string()));
    let m = GLSLCompileTask::new("/s/a.rchit".to_string(), vec![], vec![]);
    assert_eq!(m.shader_kind(), Ok(ShaderStage::ClosestHit));
    assert_eq!(m.stage_macro(), Some("FRILL_SHADER_STAGE_CLOSEST_HIT".to_string()));
}

#[test]
fn stage_of_glsl_file_from_defines() {
    let t = GLSLCompileTask::new(
        "/s/common.glsl".to_string(),
        vec![],
        strings(&["USE_FOG", "FRILL_SHADER_STAGE_COMP"]),
    );
    assert_eq!(t.shader_kind(), Ok(ShaderStage::Compute));
    assert_eq!(t.stage_macro(), None);
    let missing = GLSLCompileTask::new("/s/common.glsl".to_string(), vec![], strings(&["USE_FOG"]));
    assert_eq!(missing.shader_kind(), Err(StageError::MissingStageMacro));
}

#[test]
fn unknown_extension_is_rejected() {
    let t = GLSLCompileTask::new("/s/readme.txt".to_string(), vec![], vec![]);
    assert_eq!(t.shader_kind(), Err(StageError::InvalidExtension));
    let none = GLSLCompileTask::new("/s/shader".to_string(), vec![], vec![]);
    assert_eq!(none.shader_kind(), Err(StageError::InvalidExtension));
    assert_eq!(none.stage_macro(), None);
}

#[test]
fn compile_macros_put_the_stage_first() {
    let t = GLSLCompileTask::new("/s/a.vert".to_string(), vec![], strings(&["B", "A"]));
    assert_eq!(t.compile_macros(), strings(&["FRILL_SHADER_STAGE_VERT", "A", "B"]));
    let g = GLSLCompileTask::new("/s/a.glsl".to_string(), vec![], strings(&["B"]));
    assert_eq!(g.compile_macros(), strings(&["B"]));
}

#[test]
fn include_candidates_in_order() {
    let t = GLSLCompileTask::new("/s/a.frag".to_string(), strings(&["/inc2", "/inc1"]), vec![]);
    assert_eq!(
        t.include_candidates("lib.glsl", "/s/sub/a.frag", true, 1),
        Ok(strings(&["/s/sub/lib.glsl", "/inc1/lib.glsl", "/inc2/lib.glsl"]))
    );
    assert_eq!(
        t.include_candidates("lib.glsl", "/s/sub/a.frag", false, 50),
        Ok(strings(&["/inc1/lib.glsl", "/inc2/lib.glsl"]))
    );
    assert_eq!(
        t.include_candidates("lib.glsl", "/s/sub/a.frag", true, 51),
        Err(IncludeError::DepthExceeded)
    );
}

#[test]
fn stage_names() {
    assert_eq!(ShaderStage::Mesh.extension(), "mesh");
    assert_eq!(ShaderStage::TessEvaluation.macro_name(), "FRILL_SHADER_STAGE_TESS_EVALUATION");
}
