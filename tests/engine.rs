use frill::cache::{
    get_cache_dir, index_needs_write, merge_task_results, plan_task, progress_line, Cache, Context,
    Dependency, Step, TaskOutput, Timestamp,
};
use frill::pack::{append_aligned, PackCpp};

fn ts(s: i64, n: u32) -> Timestamp {
    Timestamp { unix_seconds: s, nano_seconds: n }
}

fn out(uri: &str, file: &str) -> TaskOutput {
    TaskOutput { uri: uri.to_string(), file: file.to_string() }
}

fn record() -> Cache {
    let mut c = Cache::new();
    c.add_dep("/src/a.frag".to_string(), ts(100, 5));
    c.add_dep("/out/A.spv".to_string(), ts(101, 0));
    c.outputs.push(out("a.frag/flags=", "A.spv"));
    c
}

#[test]
fn fresh_record_returns_its_outputs() {
    let c = record();
    let r = c.cached_outputs(&vec![Some(ts(100, 5)), Some(ts(101, 0))]).unwrap();
    assert_eq!(r.len(), 1);
    assert_eq!(r[0].uri, "a.frag/flags=");
    assert_eq!(r[0].file, "A.spv");
}

#[test]
fn touched_dependency_makes_record_stale() {
    let c = record();
    assert!(c.cached_outputs(&vec![Some(ts(100, 6)), Some(ts(101, 0))]).is_none());
    assert!(c.cached_outputs(&vec![Some(ts(100, 5)), Some(ts(102, 0))]).is_none());
}

#[test]
fn vanished_dependency_makes_record_stale() {
    let c = record();
    assert!(c.cached_outputs(&vec![Some(ts(100, 5)), None]).is_none());
    assert!(c.cached_outputs(&vec![Some(ts(100, 5))]).is_none());
}

#[test]
fn record_without_dependencies_is_fresh() {
    let mut c = Cache::new();
    c.outputs.push(out("u", "f"));
    assert_eq!(c.cached_outputs(&vec![]).unwrap().len(), 1);
}

#[test]
fn force_flag_runs_the_task() {
    assert!(matches!(plan_task(true, Some(vec![out("u", "f")])), Step::Run));
    assert!(matches!(plan_task(false, None), Step::Run));
    match plan_task(false, Some(vec![out("u", "f")])) {
        Step::UseCached(o) => assert_eq!(o[0].uri, "u"),
        Step::Run => panic!("a fresh record should be used"),
    }
}

#[test]
fn merging_results() {
    let a: Result<Vec<TaskOutput>, String> = Ok(vec![out("a", "1")]);
    let b: Result<Vec<TaskOutput>, String> = Ok(vec![out("b", "2")]);
    let m = merge_task_results(a, b).unwrap();
    assert_eq!(m.len(), 2);
    assert_eq!(m[0].uri, "a");
    assert_eq!(m[1].uri, "b");
    let e1: Result<Vec<TaskOutput>, String> = Err("first".to_string());
    let e2: Result<Vec<TaskOutput>, String> = Err("second".to_string());
    assert_eq!(merge_task_results(e1, e2).err().unwrap(), "first");
    let ok: Result<Vec<TaskOutput>, String> = Ok(vec![]);
    let e3: Result<Vec<TaskOutput>, String> = Err("late".to_string());
    assert_eq!(merge_task_results(ok, e3).err().unwrap(), "late");
}

#[test]
fn cache_directory() {
    assert_eq!(get_cache_dir("/out", &None), "/out/__frill_cache__");
    assert_eq!(get_cache_dir("/out", &Some("/c".to_string())), "/c");
}

#[test]
fn index_is_rewritten_only_on_change() {
    assert!(!index_needs_write("[]", Some("[]")));
    assert!(index_needs_write("[1]", Some("[]")));
    assert!(index_needs_write("[]", None));
}

#[test]
fn progress_lines() {
    assert_eq!(progress_line(2, 10, "Compiling x"), "[ 3/10] Compiling x");
    assert_eq!(progress_line(0, 1, "s"), "[1/1] s");
    assert_eq!(progress_line(99, 100, "t"), "[100/100] t");
}

#[test]
fn context_records_in_order() {
    let mut ctx = Context::new("/out".to_string(), "/src".to_string());
    assert_eq!(ctx.resolve_path("x.spv"), "/out/x.spv");
    assert_eq!(ctx.resolve_path("/abs/y"), "/abs/y");
    assert_eq!(ctx.cwd(), "/out");
    assert_eq!(ctx.source_root_dir(), "/src");
    ctx.record_dependency("/src/a".to_string(), ts(1, 2));
    ctx.record_dependency("/out/b".to_string(), ts(3, 4));
    let c = ctx.into_record(vec![out("u", "b")]);
    assert_eq!(c.deps.len(), 2);
    assert_eq!(c.deps[0].path, "/src/a");
    assert_eq!(c.deps[1].time_stamp, ts(3, 4));
    assert_eq!(c.outputs.len(), 1);
    let d = Dependency { path: "p".to_string(), time_stamp: ts(0, 0) };
    assert_eq!(d.path, "p");
}

#[test]
fn aligned_append() {
    let mut blob = vec![1u8, 2, 3];
    let off = append_aligned(&mut blob, &vec![9u8; 14]);
    assert_eq!(off, 3);
    assert_eq!(blob.len(), 32);
    assert_eq!(blob[16], 9);
    assert_eq!(blob[17], 0);
    let mut empty: Vec<u8> = vec![];
    assert_eq!(append_aligned(&mut empty, &vec![]), 0);
    assert!(empty.is_empty());
}

#[test]
fn packing_two_artifacts() {
    let p = PackCpp {};
    assert_eq!(p.cpp_name(), "frill.cpp");
    assert_eq!(p.h_name(), "frill.h");
    assert_eq!(p.summary(), "Packing assets to frill.h,frill.cpp");
    let uris = vec!["a".to_string(), "b".to_string()];
    let data = vec![vec![7u8; 3], vec![200u8; 17]];
    let packed = p.pack(&uris, &data);
    assert_eq!(packed.bytes.len(), 48);
    assert_eq!(packed.bytes[0..3], [7, 7, 7]);
    assert_eq!(packed.bytes[3], 0);
    assert_eq!(packed.bytes[16], 200);
    assert_eq!(packed.bytes[33], 0);
    assert_eq!(packed.index[0], "indices.emplace(\"a\", DataRange{0, 3});");
    assert_eq!(packed.index[1], "indices.emplace(\"b\", DataRange{16, 17});");
    assert_eq!(
        p.index_text(&packed),
        "indices.emplace(\"a\", DataRange{0, 3});\nindices.emplace(\"b\", DataRange{16, 17});"
    );
    let small = p.pack(&vec!["c".to_string()], &vec![vec![1u8, 255]]);
    assert_eq!(p.bytes_text(&small), "1,255,0,0,0,0,0,0,0,0,0,0,0,0,0,0");
}
