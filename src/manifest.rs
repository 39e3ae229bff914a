//! Manifests and variant expansion: a source entry with its multi-compile
//! groups becomes one compile task per combination of flags.

use vstd::prelude::*;
use crate::order::{copy_strings, views};
use crate::paths::{is_absolute, join_path, path_join};
use crate::task::{fingerprint, output_file_name_of, task_model, CompileTaskView, GLSLCompileTask};

verus! {

/// A multi-compile group in its normal form: the flags to choose from, and
/// whether the group may also contribute no flag.
pub struct MultiCompileEntryDetailed {
    pub options: Vec<String>,
    pub can_off: bool,
}

/// A multi-compile group as a manifest writes it: a single flag, a list of
/// flags, or the normal form. The first two may be left off.
pub enum MultiCompileEntry {
    Flag(String),
    MultiFlags(Vec<String>),
    Detailed(MultiCompileEntryDetailed),
}

/// A source entry in its normal form.
pub struct SourceInfoDetailed {
    pub file: String,
    pub multi_compile: Option<Vec<MultiCompileEntry>>,
    pub includes: Option<Vec<String>>,
}

/// A source entry as a manifest writes it: a bare file, or the normal form.
pub enum SourceInfo {
    Name(String),
    Detailed(SourceInfoDetailed),
}

/// One directory's manifest.
pub struct FrillConfig {
    pub sources: Option<Vec<SourceInfo>>,
    pub includes: Option<Vec<String>>,
    pub subdirectories: Option<Vec<String>>,
}

/// A path that could not be resolved on the file system.
#[derive(Debug)]
pub struct PathError {
    pub path: String,
}

/// A group as a value.
pub struct GroupModel {
    pub options: Seq<Seq<char>>,
    pub can_off: bool,
}

pub open spec fn entry_group(e: MultiCompileEntry) -> GroupModel {
    match e {
        MultiCompileEntry::Flag(f) => GroupModel { options: seq![f@], can_off: true },
        MultiCompileEntry::MultiFlags(v) => GroupModel { options: views(v@), can_off: true },
        MultiCompileEntry::Detailed(d) => GroupModel { options: views(d.options@), can_off: d.can_off },
    }
}

pub open spec fn detailed_group(d: MultiCompileEntryDetailed) -> GroupModel {
    GroupModel { options: views(d.options@), can_off: d.can_off }
}

pub open spec fn groups_of(entries: Option<Vec<MultiCompileEntry>>) -> Seq<GroupModel> {
    match entries {
        Some(v) => v@.map_values(|e: MultiCompileEntry| entry_group(e)),
        None => seq![],
    }
}

/// The tasks for `file`, for groups `i` onward, where group `i` goes on from
/// its option `j` (an index past the options stands for leaving the group
/// off), with the flags in `stack` chosen so far.
pub open spec fn expand(
    file: Seq<char>,
    includes: Seq<Seq<char>>,
    groups: Seq<GroupModel>,
    i: int,
    j: int,
    stack: Seq<Seq<char>>,
) -> Seq<CompileTaskView>
    decreases groups.len() - i, groups[i].options.len() - j,
{
    if i < 0 || i >= groups.len() {
        seq![task_model(file, includes, stack)]
    } else if 0 <= j < groups[i].options.len() {
        expand(file, includes, groups, i + 1, 0, stack.push(groups[i].options[j]))
            + expand(file, includes, groups, i, j + 1, stack)
    } else if groups[i].can_off {
        expand(file, includes, groups, i + 1, 0, stack)
    } else {
        seq![]
    }
}

/// Every combination of one option per group (or none, where the group may
/// be left off), in declaration order, each as a task.
pub open spec fn variants(
    file: Seq<char>,
    includes: Seq<Seq<char>>,
    groups: Seq<GroupModel>,
) -> Seq<CompileTaskView> {
    expand(file, includes, groups, 0, 0, seq![])
}

/// How many ways a group can be taken: each option, and leaving it off if allowed.
pub open spec fn group_factor(g: GroupModel) -> nat {
    g.options.len() + if g.can_off { 1nat } else { 0nat }
}

/// The product of the factors of groups `i` onward.
pub open spec fn variant_count_from(groups: Seq<GroupModel>, i: int) -> nat
    decreases groups.len() - i,
{
    if i < 0 || i >= groups.len() {
        1
    } else {
        group_factor(groups[i]) * variant_count_from(groups, i + 1)
    }
}

pub open spec fn variant_count(groups: Seq<GroupModel>) -> nat {
    variant_count_from(groups, 0)
}

pub open spec fn task_views(v: Seq<GLSLCompileTask>) -> Seq<CompileTaskView> {
    v.map_values(|t: GLSLCompileTask| t@)
}

pub open spec fn all_wf(v: Seq<GLSLCompileTask>) -> bool {
    forall|k: int| 0 <= k < v.len() ==> (#[trigger] v[k]).wf()
}

proof fn lemma_expand_len(
    file: Seq<char>,
    includes: Seq<Seq<char>>,
    groups: Seq<GroupModel>,
    i: int,
    j: int,
    stack: Seq<Seq<char>>,
)
    requires
        0 <= i,
        0 <= j,
        i < groups.len() ==> j <= groups[i].options.len(),
    ensures
        i >= groups.len() ==> expand(file, includes, groups, i, j, stack).len() == 1,
        i < groups.len() ==> expand(file, includes, groups, i, j, stack).len() == (group_factor(groups[i]) - j) * variant_count_from(groups, i + 1),
    decreases groups.len() - i, groups[i].options.len() - j,
{
    if i < groups.len() {
        let c = variant_count_from(groups, i + 1);
        lemma_expand_len(file, includes, groups, i + 1, 0, stack);
        if j < groups[i].options.len() {
            lemma_expand_len(file, includes, groups, i + 1, 0, stack.push(groups[i].options[j]));
            lemma_expand_len(file, includes, groups, i, j + 1, stack);
            let f = group_factor(groups[i]) as int;
            assert((f - j) * c == c + (f - (j + 1)) * c) by (nonlinear_arith);
        } else {
            let f = group_factor(groups[i]) as int;
            if groups[i].can_off {
                assert(f - j == 1);
                assert((f - j) * c == c) by (nonlinear_arith)
                    requires f - j == 1;
            } else {
                assert(f - j == 0);
                assert((f - j) * c == 0) by (nonlinear_arith)
                    requires f - j == 0;
            }
        }
    }
}

/// A manifest entry whose groups have sizes m1, ..., mk expands to the
/// product of (mi + 1) over the groups that may be left off and mi over the
/// others.
pub proof fn lemma_variant_count(file: Seq<char>, includes: Seq<Seq<char>>, groups: Seq<GroupModel>)
    ensures
        variants(file, includes, groups).len() == variant_count(groups),
{
    lemma_expand_len(file, includes, groups, 0, 0, seq![]);
    if groups.len() > 0 {
        assert(variant_count_from(groups, 0) == group_factor(groups[0]) * variant_count_from(groups, 1));
    }
}

/// Relies on std::path::Path::canonicalize: the answer comes from the file
/// system; what it documents of every success is that the path is absolute
/// (on Unix, where this library's paths are `/`-separated), and an error
/// carries the path that failed.
#[verifier::external_body]
fn canonicalize(path: &String) -> (r: Result<String, PathError>)
    ensures
        r matches Ok(p) ==> is_absolute(p@),
        r matches Err(e) ==> e.path@ == path@,
{
    match std::path::Path::new(path).canonicalize() {
        Ok(p) => Ok(p.to_string_lossy().into_owned()),
        Err(_) => Err(PathError { path: path.clone() }),
    }
}

/// `path` taken relative to `base` and made canonical on the file system.
pub fn resolve_path(base: &str, path: &str) -> (r: Result<String, PathError>)
    ensures
        r matches Ok(p) ==> is_absolute(p@),
        r matches Err(e) ==> e.path@ == join_path(base@, path@),
{
    let joined = path_join(base, path);
    canonicalize(&joined)
}

/// The per-entry tasks: groups that the entry names, expanded for a file
/// and includes after resolution.
pub open spec fn source_tasks(
    s: SourceInfoDetailed,
    file: Seq<char>,
    includes: Seq<Seq<char>>,
) -> Seq<CompileTaskView> {
    variants(file, includes, groups_of(s.multi_compile))
}

impl MultiCompileEntryDetailed {
    /// The normal form of a group: a bare flag or a list of flags may be left off.
    pub fn from_entry(value: &MultiCompileEntry) -> (r: Self)
        ensures
            detailed_group(r) == entry_group(*value),
    {
        match value {
            MultiCompileEntry::Flag(flag) => {
                let mut options: Vec<String> = Vec::new();
                options.push(flag.clone());
                let r = MultiCompileEntryDetailed { options, can_off: true };
                assert(views(r.options@) =~= seq![flag@]);
                r
            },
            MultiCompileEntry::MultiFlags(options) => {
                MultiCompileEntryDetailed { options: copy_strings(options), can_off: true }
            },
            MultiCompileEntry::Detailed(d) => {
                MultiCompileEntryDetailed { options: copy_strings(&d.options), can_off: d.can_off }
            },
        }
    }
}

impl SourceInfoDetailed {
    pub open spec fn groups(&self) -> Seq<GroupModel> {
        groups_of(self.multi_compile)
    }

    pub open spec fn extra_include_count(&self) -> nat {
        names(self.includes).len()
    }

    /// The normal form of a source entry: a bare file has no groups and no
    /// includes of its own.
    pub fn from_source(value: SourceInfo) -> (r: Self)
        ensures
            match value {
                SourceInfo::Name(name) => r.file == name && r.multi_compile is None && r.includes is None,
                SourceInfo::Detailed(d) => r == d,
            },
    {
        match value {
            SourceInfo::Name(name) => SourceInfoDetailed { file: name, multi_compile: None, includes: None },
            SourceInfo::Detailed(d) => d,
        }
    }

    /// Appends to `result` the tasks for groups `index` onward, with the
    /// flags in `flag_stack` chosen so far; `flag_stack` comes back as it was.
    pub fn emit_multi_compile_tasks(
        &self,
        file: &String,
        includes: &Vec<String>,
        flag_stack: &mut Vec<String>,
        index: usize,
        result: &mut Vec<GLSLCompileTask>,
    )
        requires
            all_wf(old(result)@),
        ensures
            final(flag_stack)@ == old(flag_stack)@,
            all_wf(final(result)@),
            task_views(final(result)@) == task_views(old(result)@) + expand(
                file@,
                views(includes@),
                self.groups(),
                index as int,
                0,
                views(old(flag_stack)@),
            ),
        decreases self.groups().len() - index,
    {
        let ghost groups = self.groups();
        let ghost inc = views(includes@);
        let ghost stack = views(flag_stack@);
        let ghost orig = flag_stack@;
        let ghost start = task_views(result@);
        let n: usize = match &self.multi_compile {
            Some(v) => v.len(),
            None => 0,
        };
        assert(n == groups.len());
        if index >= n {
            let t = GLSLCompileTask::new(file.clone(), copy_strings(includes), copy_strings(flag_stack));
            result.push(t);
            assert(task_views(result@) =~= start + expand(file@, inc, groups, index as int, 0, stack));
            return;
        }
        let group = match &self.multi_compile {
            Some(v) => MultiCompileEntryDetailed::from_entry(&v[index]),
            None => {
                assert(false);
                MultiCompileEntryDetailed { options: Vec::new(), can_off: false }
            },
        };
        assert(detailed_group(group) == groups[index as int]);
        let mut j: usize = 0;
        while j < group.options.len()
            invariant
                j <= group.options.len(),
                index < n,
                n == groups.len(),
                groups == self.groups(),
                detailed_group(group) == groups[index as int],
                views(flag_stack@) == stack,
                flag_stack@ == orig,
                inc == views(includes@),
                all_wf(result@),
                start + expand(file@, inc, groups, index as int, 0, stack) == task_views(result@)
                    + expand(file@, inc, groups, index as int, j as int, stack),
            decreases group.options.len() - j,
        {
            let ghost before = task_views(result@);
            let flag = group.options[j].clone();
            flag_stack.push(flag);
            assert(views(flag_stack@) =~= stack.push(groups[index as int].options[j as int]));
            self.emit_multi_compile_tasks(file, includes, flag_stack, index + 1, result);
            flag_stack.pop();
            assert(flag_stack@ =~= orig);
            assert(task_views(result@) + expand(file@, inc, groups, index as int, j + 1, stack) =~= before
                + expand(file@, inc, groups, index as int, j as int, stack));
            j = j + 1;
        }
        if group.can_off {
            let ghost before = task_views(result@);
            self.emit_multi_compile_tasks(file, includes, flag_stack, index + 1, result);
            assert(task_views(result@) =~= before + expand(file@, inc, groups, index as int, j as int, stack));
        } else {
            assert(expand(file@, inc, groups, index as int, j as int, stack) =~= seq![]);
        }
        assert(task_views(result@) =~= start + expand(file@, inc, groups, index as int, 0, stack));
    }

    /// The entry's tasks: its file and its own include directories resolved
    /// against the manifest's directory `path`, after the inherited includes.
    pub fn get_tasks(&self, path: &str, includes: &Vec<String>) -> (r: Result<Vec<GLSLCompileTask>, PathError>)
        ensures
            r matches Ok(tasks) ==> all_wf(tasks@) && exists|file: Seq<char>, extra: Seq<Seq<char>>|
                extra.len() == self.extra_include_count() && task_views(tasks@) == source_tasks(
                    *self,
                    file,
                    views(includes@) + extra,
                ),
            r matches Ok(tasks) ==> tasks@.len() == variant_count(self.groups()),
            r matches Err(e) ==> e.path@ == join_path(path@, self.file@) || exists|x: Seq<char>|
                names(self.includes).contains(x) && e.path@ == join_path(path@, x),
    {
        let mut merged = copy_strings(includes);
        match &self.includes {
            Some(extra) => {
                let mut k: usize = 0;
                while k < extra.len()
                    invariant
                        k <= extra.len(),
                        self.includes == Some(*extra),
                        merged@.len() == includes@.len() + k,
                        merged@.take(includes@.len() as int) == includes@,
                    decreases extra.len() - k,
                {
                    match resolve_path(path, extra[k].as_str()) {
                        Ok(p) => merged.push(p),
                        Err(e) => {
                            assert(names(self.includes)[k as int] == extra[k as int]@);
                            return Err(e);
                        },
                    }
                    assert(merged@.take(includes@.len() as int) =~= includes@);
                    k = k + 1;
                }
            },
            None => {},
        }
        assert(merged@.len() == includes@.len() + self.extra_include_count());
        let file = match resolve_path(path, self.file.as_str()) {
            Ok(f) => f,
            Err(e) => {
                return Err(e);
            },
        };
        let mut result: Vec<GLSLCompileTask> = Vec::new();
        let mut stack: Vec<String> = Vec::new();
        assert(views(stack@) =~= Seq::<Seq<char>>::empty());
        self.emit_multi_compile_tasks(&file, &merged, &mut stack, 0, &mut result);
        proof {
            let extra = views(merged@).skip(includes@.len() as int);
            assert(views(merged@) =~= views(includes@) + extra);
            assert(task_views(result@) =~= source_tasks(*self, file@, views(includes@) + extra));
            lemma_variant_count(file@, views(merged@), self.groups());
        }
        Ok(result)
    }
}

/// What one directory's manifest yields: the include directories that its
/// subdirectories inherit, its own tasks, and its subdirectories, resolved.
pub struct DirectoryTasks {
    pub includes: Vec<String>,
    pub tasks: Vec<GLSLCompileTask>,
    pub subdirectories: Vec<String>,
}

/// The paths of an optional list.
pub open spec fn names(v: Option<Vec<String>>) -> Seq<Seq<char>> {
    match v {
        Some(v) => views(v@),
        None => seq![],
    }
}

pub open spec fn config_sources(c: FrillConfig) -> Seq<SourceInfo> {
    match c.sources {
        Some(v) => v@,
        None => seq![],
    }
}

pub open spec fn source_groups(s: SourceInfo) -> Seq<GroupModel> {
    match s {
        SourceInfo::Name(_) => seq![],
        SourceInfo::Detailed(d) => groups_of(d.multi_compile),
    }
}

pub open spec fn source_file(s: SourceInfo) -> Seq<char> {
    match s {
        SourceInfo::Name(n) => n@,
        SourceInfo::Detailed(d) => d.file@,
    }
}

/// The include directories an entry adds for itself alone.
pub open spec fn source_own_includes(s: SourceInfo) -> Seq<Seq<char>> {
    match s {
        SourceInfo::Name(_) => seq![],
        SourceInfo::Detailed(d) => names(d.includes),
    }
}

/// An entry's tasks, for its file and its include list once resolved.
pub open spec fn entry_tasks(s: SourceInfo, file: Seq<char>, includes: Seq<Seq<char>>) -> Seq<CompileTaskView> {
    variants(file, includes, source_groups(s))
}

/// The tasks of the first `picks.len()` entries, in declaration order: entry
/// `k` with resolved file `picks[k].0`, and the directory's includes followed
/// by its own resolved includes `picks[k].1`.
pub open spec fn directory_tasks(
    sources: Seq<SourceInfo>,
    includes: Seq<Seq<char>>,
    picks: Seq<(Seq<char>, Seq<Seq<char>>)>,
) -> Seq<CompileTaskView>
    decreases picks.len(),
{
    if picks.len() == 0 {
        seq![]
    } else {
        let k = picks.len() - 1;
        directory_tasks(sources, includes, picks.drop_last()) + entry_tasks(
            sources[k],
            picks[k].0,
            includes + picks[k].1,
        )
    }
}

/// `tasks` are the manifest's source entries expanded in declaration order,
/// each with some resolved file and some resolved own includes (as many as
/// the entry lists) after `includes`.
pub open spec fn expands_to(c: FrillConfig, includes: Seq<Seq<char>>, tasks: Seq<CompileTaskView>) -> bool {
    exists|picks: Seq<(Seq<char>, Seq<Seq<char>>)>|
        #![trigger directory_tasks(config_sources(c), includes, picks)]
        picks.len() == config_sources(c).len() && (forall|k: int|
            0 <= k < picks.len() ==> (#[trigger] picks[k]).1.len() == source_own_includes(
                config_sources(c)[k],
            ).len()) && tasks == directory_tasks(config_sources(c), includes, picks)
}

/// A manifest step is deterministic: the same manifest, inherited includes
/// and resolved paths give the same tasks, in the same order, with the same
/// fingerprints and output names.
pub proof fn lemma_directory_deterministic(
    c: FrillConfig,
    includes: Seq<Seq<char>>,
    picks: Seq<(Seq<char>, Seq<Seq<char>>)>,
    a: Seq<CompileTaskView>,
    b: Seq<CompileTaskView>,
)
    requires
        a == directory_tasks(config_sources(c), includes, picks),
        b == directory_tasks(config_sources(c), includes, picks),
    ensures
        a.len() == b.len(),
        forall|i: int| 0 <= i < a.len() ==> fingerprint(#[trigger] a[i]) == fingerprint(b[i])
            && output_file_name_of(a[i]) == output_file_name_of(b[i]),
{
}

/// `x` is a path the manifest lists: an include, a subdirectory, or a source
/// entry's file or own include.
pub open spec fn lists_path(c: FrillConfig, x: Seq<char>) -> bool {
    names(c.includes).contains(x) || names(c.subdirectories).contains(x) || exists|k: int|
        0 <= k < config_sources(c).len() && (source_file(#[trigger] config_sources(c)[k]) == x
            || source_own_includes(config_sources(c)[k]).contains(x))
}

/// The number of tasks that the first `n` source entries expand to.
pub open spec fn sources_count(sources: Seq<SourceInfo>, n: int) -> nat
    decreases n,
{
    if n <= 0 || n > sources.len() {
        0
    } else {
        sources_count(sources, n - 1) + variant_count(source_groups(sources[n - 1]))
    }
}

pub open spec fn config_task_count(c: FrillConfig) -> nat {
    sources_count(config_sources(c), config_sources(c).len() as int)
}

impl FrillConfig {
    /// One directory's step of the manifest walk: its includes resolved and
    /// added after the inherited ones, each source entry expanded with those
    /// includes and its own, in declaration order, and its subdirectories
    /// resolved. The caller reads each subdirectory's manifest and goes on
    /// with the includes returned here.
    pub fn expand_directory(self, path: &str, inherited: &Vec<String>) -> (r: Result<DirectoryTasks, PathError>)
        ensures
            names(self.includes).len() == 0 && config_sources(self).len() == 0 && names(
                self.subdirectories,
            ).len() == 0 ==> r is Ok,
            r matches Ok(d) ==> exists|res: Seq<Seq<char>>|
                res.len() == names(self.includes).len() && views(d.includes@) == views(inherited@) + res,
            r matches Ok(d) ==> d.includes@.take(inherited@.len() as int) == inherited@,
            r matches Ok(d) ==> expands_to(self, views(d.includes@), task_views(d.tasks@)),
            r matches Ok(d) ==> all_wf(d.tasks@) && d.tasks@.len() == config_task_count(self),
            r matches Ok(d) ==> d.subdirectories@.len() == names(self.subdirectories).len(),
            r matches Err(e) ==> exists|x: Seq<char>| lists_path(self, x) && e.path@ == join_path(path@, x),
    {
        let ghost cfg = self;
        let mut includes = copy_strings(inherited);
        match &self.includes {
            Some(own) => {
                let mut k: usize = 0;
                while k < own.len()
                    invariant
                        k <= own.len(),
                        cfg.includes == Some(*own),
                        cfg == self,
                        includes@.len() == inherited@.len() + k,
                        includes@.take(inherited@.len() as int) == inherited@,
                    decreases own.len() - k,
                {
                    match resolve_path(path, own[k].as_str()) {
                        Ok(p) => includes.push(p),
                        Err(e) => {
                            assert(names(cfg.includes)[k as int] == own[k as int]@);
                            assert(lists_path(cfg, own[k as int]@));
                            assert(cfg == self);
                            return Err(e);
                        },
                    }
                    assert(includes@.take(inherited@.len() as int) =~= inherited@);
                    k = k + 1;
                }
            },
            None => {},
        }
        proof {
            let res = views(includes@).skip(inherited@.len() as int);
            assert(views(includes@) =~= views(inherited@) + res);
        }
        let ghost all = config_sources(cfg);
        let ghost inc = views(includes@);
        let mut tasks: Vec<GLSLCompileTask> = Vec::new();
        let ghost mut picks: Seq<(Seq<char>, Seq<Seq<char>>)> = seq![];
        match self.sources {
            Some(sources) => {
                let n = sources.len();
                let mut rest = sources;
                let mut k: usize = 0;
                while k < n
                    invariant
                        k <= n,
                        n == all.len(),
                        all == config_sources(cfg),
                        cfg == self,
                        rest@ == all.skip(k as int),
                        inc == views(includes@),
                        all_wf(tasks@),
                        tasks@.len() == sources_count(all, k as int),
                        picks.len() == k,
                        forall|q: int| 0 <= q < picks.len() ==> (#[trigger] picks[q]).1.len() == source_own_includes(all[q]).len(),
                        task_views(tasks@) == directory_tasks(all, inc, picks),
                    decreases n - k,
                {
                    let ghost src = all[k as int];
                    let first = rest.remove(0);
                    assert(first == src);
                    assert(rest@ =~= all.skip(k + 1));
                    let detailed = SourceInfoDetailed::from_source(first);
                    assert(detailed.groups() == source_groups(src));
                    let mut more = match detailed.get_tasks(path, &includes) {
                        Ok(m) => m,
                        Err(e) => {
                            proof {
                                if e.path@ == join_path(path@, detailed.file@) {
                                    assert(source_file(config_sources(cfg)[k as int]) == detailed.file@);
                                    assert(lists_path(cfg, detailed.file@));
                                } else {
                                    let x = choose|x: Seq<char>|
                                        names(detailed.includes).contains(x) && e.path@ == join_path(path@, x);
                                    assert(source_own_includes(all[k as int]).contains(x));
                                    assert(lists_path(cfg, x));
                                }
                            }
                            assert(cfg == self);
                            return Err(e);
                        },
                    };
                    let ghost before = tasks@;
                    let ghost added = more@;
                    let ghost pick = choose|f: Seq<char>, x: Seq<Seq<char>>|
                        x.len() == detailed.extra_include_count() && task_views(added) == source_tasks(
                            detailed,
                            f,
                            inc + x,
                        );
                    tasks.append(&mut more);
                    assert(all_wf(tasks@)) by {
                        assert forall|q: int| 0 <= q < tasks@.len() implies (#[trigger] tasks@[q]).wf() by {
                            if q >= before.len() {
                                assert(tasks@[q] == added[q - before.len()]);
                            }
                        }
                    }
                    proof {
                        let old_picks = picks;
                        picks = picks.push(pick);
                        assert(picks.drop_last() =~= old_picks);
                        assert(task_views(tasks@) =~= task_views(before) + task_views(added));
                        assert(entry_tasks(src, pick.0, inc + pick.1) == source_tasks(detailed, pick.0, inc + pick.1));
                    }
                    k = k + 1;
                }
            },
            None => {},
        }
        let mut subdirectories: Vec<String> = Vec::new();
        match &self.subdirectories {
            Some(subs) => {
                let mut k: usize = 0;
                while k < subs.len()
                    invariant
                        k <= subs.len(),
                        cfg.subdirectories == Some(*subs),
                        cfg == self,
                        subdirectories@.len() == k,
                    decreases subs.len() - k,
                {
                    match resolve_path(path, subs[k].as_str()) {
                        Ok(p) => subdirectories.push(p),
                        Err(e) => {
                            assert(names(cfg.subdirectories)[k as int] == subs[k as int]@);
                            assert(lists_path(cfg, subs[k as int]@));
                            assert(cfg == self);
                            return Err(e);
                        },
                    }
                    k = k + 1;
                }
            },
            None => {},
        }
        assert(cfg == self);
        assert(inc == views(includes@));
        assert(task_views(tasks@) == directory_tasks(config_sources(self), views(includes@), picks));
        assert(picks.len() == config_sources(self).len());
        assert(forall|k: int|
            0 <= k < picks.len() ==> (#[trigger] picks[k]).1.len() == source_own_includes(config_sources(self)[k]).len());
        let r = DirectoryTasks { includes, tasks, subdirectories };
        assert(task_views(r.tasks@) == directory_tasks(config_sources(self), views(r.includes@), picks));
        assert(expands_to(self, views(r.includes@), task_views(r.tasks@)));
        Ok(r)
    }
}

} // verus!
