use frill::manifest::{
    resolve_path, FrillConfig, MultiCompileEntry, MultiCompileEntryDetailed, SourceInfo,
    SourceInfoDetailed,
};
use frill::task::GLSLCompileTask;

fn strings(items: &[&str]) -> Vec<String> {
    items.iter().map(|s| s.to_string()).collect()
}

fn source(groups: Vec<MultiCompileEntry>) -> SourceInfoDetailed {
    SourceInfoDetailed { file: "a.frag".to_string(), multi_compile: Some(groups), includes: None }
}

fn expand(s: &SourceInfoDetailed) -> Vec<GLSLCompileTask> {
    let mut stack = vec![];
    let mut result = vec![];
    s.emit_multi_compile_tasks(&"/src/a.frag".to_string(), &strings(&["/inc"]), &mut stack, 0, &mut result);
    assert!(stack.is_empty());
    result
}

#[test]
fn one_optional_group_of_two_gives_three_tasks() {
    let s = source(vec![MultiCompileEntry::Detailed(MultiCompileEntryDetailed {
        options: strings(&["FOO", "BAR"]),
        can_off: true,
    })]);
    let tasks = expand(&s);
    assert_eq!(tasks.len(), 3);
    assert_eq!(tasks[0].defines(), &strings(&["FOO"]));
    assert_eq!(tasks[1].defines(), &strings(&["BAR"]));
    assert!(tasks[2].defines().is_empty());
    for t in &tasks {
        assert_eq!(t.file(), "/src/a.frag");
        assert_eq!(t.include_dirs(), &strings(&["/inc"]));
    }
}

#[test]
fn optional_groups_of_two_and_three_give_twelve() {
    let s = source(vec![
        MultiCompileEntry::MultiFlags(strings(&["A", "B"])),
        MultiCompileEntry::MultiFlags(strings(&["X", "Y", "Z"])),
    ]);
    let tasks = expand(&s);
    assert_eq!(tasks.len(), 12);
    assert_eq!(tasks[0].defines(), &strings(&["A", "X"]));
    assert_eq!(tasks[3].defines(), &strings(&["A"]));
    assert_eq!(tasks[11].defines(), &Vec::<String>::new());
}

#[test]
fn required_group_contributes_its_size() {
    let s = source(vec![
        MultiCompileEntry::Detailed(MultiCompileEntryDetailed {
            options: strings(&["LOW", "HIGH"]),
            can_off: false,
        }),
        MultiCompileEntry::Flag("SHADOWS".to_string()),
    ]);
    let tasks = expand(&s);
    assert_eq!(tasks.len(), 4);
    assert_eq!(tasks[0].defines(), &strings(&["LOW", "SHADOWS"]));
    assert_eq!(tasks[1].defines(), &strings(&["LOW"]));
    assert_eq!(tasks[2].defines(), &strings(&["HIGH", "SHADOWS"]));
    assert_eq!(tasks[3].defines(), &strings(&["HIGH"]));
}

#[test]
fn required_empty_group_gives_nothing() {
    let s = source(vec![MultiCompileEntry::Detailed(MultiCompileEntryDetailed {
        options: vec![],
        can_off: false,
    })]);
    assert!(expand(&s).is_empty());
}

#[test]
fn no_groups_gives_one_task() {
    let s = SourceInfoDetailed::from_source(SourceInfo::Name("a.frag".to_string()));
    assert!(s.multi_compile.is_none() && s.includes.is_none());
    let tasks = expand(&s);
    assert_eq!(tasks.len(), 1);
    assert!(tasks[0].defines().is_empty());
}

#[test]
fn group_normal_forms() {
    let f = MultiCompileEntryDetailed::from_entry(&MultiCompileEntry::Flag("F".to_string()));
    assert_eq!(f.options, strings(&["F"]));
    assert!(f.can_off);
    let m = MultiCompileEntryDetailed::from_entry(&MultiCompileEntry::MultiFlags(strings(&["A", "B"])));
    assert_eq!(m.options, strings(&["A", "B"]));
    assert!(m.can_off);
    let d = MultiCompileEntryDetailed::from_entry(&MultiCompileEntry::Detailed(MultiCompileEntryDetailed {
        options: strings(&["Q"]),
        can_off: false,
    }));
    assert_eq!(d.options, strings(&["Q"]));
    assert!(!d.can_off);
}

#[test]
fn repeated_flags_across_groups_collapse() {
    let s = source(vec![
        MultiCompileEntry::Flag("A".to_string()),
        MultiCompileEntry::Flag("A".to_string()),
    ]);
    let tasks = expand(&s);
    assert_eq!(tasks.len(), 4);
    assert_eq!(tasks[0].defines(), &strings(&["A"]));
    assert_eq!(tasks[0].calc_hash(), tasks[1].calc_hash());
}

#[test]
fn missing_path_is_reported() {
    let e = resolve_path("/nonexistent-frill-dir", "sub/x.frag").unwrap_err();
    assert_eq!(e.path, "/nonexistent-frill-dir/sub/x.frag");
}

#[test]
fn missing_source_fails_the_entry() {
    let s = SourceInfoDetailed {
        file: "missing.frag".to_string(),
        multi_compile: None,
        includes: None,
    };
    let e = s.get_tasks("/nonexistent-frill-dir", &vec![]).err().unwrap();
    assert_eq!(e.path, "/nonexistent-frill-dir/missing.frag");
}

#[test]
fn empty_manifest_yields_nothing() {
    let c = FrillConfig { sources: None, includes: None, subdirectories: None };
    let inherited = strings(&["/inc"]);
    let d = c.expand_directory("/nonexistent-frill-dir", &inherited).ok().unwrap();
    assert_eq!(d.includes, inherited);
    assert!(d.tasks.is_empty());
    assert!(d.subdirectories.is_empty());
}

#[test]
fn manifest_with_missing_include_fails() {
    let c = FrillConfig {
        sources: None,
        includes: Some(strings(&["inc"])),
        subdirectories: None,
    };
    let e = c.expand_directory("/nonexistent-frill-dir", &vec![]).err().unwrap();
    assert_eq!(e.path, "/nonexistent-frill-dir/inc");
}

#[test]
fn resolved_paths_are_canonical() {
    assert_eq!(resolve_path("/", "tmp/..").ok().unwrap(), "/");
    let s = SourceInfoDetailed {
        file: ".".to_string(),
        multi_compile: Some(vec![MultiCompileEntry::Flag("A".to_string())]),
        includes: Some(strings(&["tmp/.."])),
    };
    let tasks = s.get_tasks("/", &strings(&["/x"])).ok().unwrap();
    assert_eq!(tasks.len(), 2);
    assert_eq!(tasks[0].file(), "/");
    assert_eq!(tasks[0].include_dirs(), &strings(&["/", "/x"]));
    assert_eq!(tasks[0].defines(), &strings(&["A"]));
    assert!(tasks[1].defines().is_empty());
}

#[test]
fn directory_step_resolves_and_expands() {
    let c = FrillConfig {
        sources: Some(vec![
            SourceInfo::Name(".".to_string()),
            SourceInfo::Detailed(SourceInfoDetailed {
                file: ".".to_string(),
                multi_compile: Some(vec![MultiCompileEntry::MultiFlags(strings(&["P", "Q"]))]),
                includes: None,
            }),
        ]),
        includes: Some(strings(&["tmp/.."])),
        subdirectories: Some(strings(&["."])),
    };
    let d = c.expand_directory("/", &strings(&["/inherited"])).ok().unwrap();
    assert_eq!(d.includes, strings(&["/inherited", "/"]));
    assert_eq!(d.tasks.len(), 4);
    assert_eq!(d.subdirectories, strings(&["/"]));
    assert_eq!(d.tasks[1].defines(), &strings(&["P"]));
}

#[test]
fn directory_step_gives_each_variant() {
    let c = FrillConfig {
        sources: Some(vec![SourceInfo::Detailed(SourceInfoDetailed {
            file: ".".to_string(),
            multi_compile: Some(vec![MultiCompileEntry::Detailed(MultiCompileEntryDetailed {
                options: strings(&["FOO", "BAR"]),
                can_off: true,
            })]),
            includes: None,
        })]),
        includes: None,
        subdirectories: None,
    };
    let d = c.expand_directory("/", &vec![]).ok().unwrap();
    assert_eq!(d.tasks.len(), 3);
    assert_eq!(d.tasks[0].defines(), &strings(&["FOO"]));
    assert_eq!(d.tasks[1].defines(), &strings(&["BAR"]));
    assert!(d.tasks[2].defines().is_empty());
    for t in &d.tasks {
        assert_eq!(t.file(), "/");
        assert!(t.include_dirs().is_empty());
    }
}

#[test]
fn entry_includes_stay_with_their_entry() {
    let c = FrillConfig {
        sources: Some(vec![
            SourceInfo::Detailed(SourceInfoDetailed {
                file: ".".to_string(),
                multi_compile: None,
                includes: Some(strings(&["tmp/.."])),
            }),
            SourceInfo::Name(".".to_string()),
        ]),
        includes: None,
        subdirectories: None,
    };
    let d = c.expand_directory("/", &strings(&["/shared"])).ok().unwrap();
    assert_eq!(d.tasks.len(), 2);
    assert_eq!(d.tasks[0].include_dirs(), &strings(&["/", "/shared"]));
    assert_eq!(d.tasks[1].include_dirs(), &strings(&["/shared"]));
    assert_eq!(d.includes, strings(&["/shared"]));
}
