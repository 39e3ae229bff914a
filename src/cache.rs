//! Cache records and the decisions of the execution engine: whether a task's
//! record is still fresh, whether to run it, and how results combine.

use vstd::prelude::*;
use crate::paths::{join_path, path_join};
use crate::text::{decimal, push_decimal};

verus! {

/// A file's last modification time.
#[derive(Clone, Copy, Debug, PartialEq, Eq, Structural)]
pub struct Timestamp {
    pub unix_seconds: i64,
    pub nano_seconds: u32,
}

/// A file that a task touched, with its modification time once released.
#[derive(Clone, Debug)]
pub struct Dependency {
    pub path: String,
    pub time_stamp: Timestamp,
}

/// An artifact: its logical name and the file that holds it.
#[derive(Clone, Debug)]
pub struct TaskOutput {
    pub uri: String,
    pub file: String,
}

/// A task's cache record: the files it touched and the outputs it produced.
#[derive(Debug)]
pub struct Cache {
    pub deps: Vec<Dependency>,
    pub outputs: Vec<TaskOutput>,
}

pub struct DependencyView {
    pub path: Seq<char>,
    pub time_stamp: Timestamp,
}

pub struct OutputView {
    pub uri: Seq<char>,
    pub file: Seq<char>,
}

impl View for Dependency {
    type V = DependencyView;

    open spec fn view(&self) -> DependencyView {
        DependencyView { path: self.path@, time_stamp: self.time_stamp }
    }
}

impl View for TaskOutput {
    type V = OutputView;

    open spec fn view(&self) -> OutputView {
        OutputView { uri: self.uri@, file: self.file@ }
    }
}

pub open spec fn dep_views(v: Seq<Dependency>) -> Seq<DependencyView> {
    v.map_values(|d: Dependency| d@)
}

pub open spec fn output_views(v: Seq<TaskOutput>) -> Seq<OutputView> {
    v.map_values(|o: TaskOutput| o@)
}

/// Every recorded dependency is still there with the time it was recorded
/// with; `live[i]` is what the file system says now of `deps[i]`.
pub open spec fn all_fresh(deps: Seq<DependencyView>, live: Seq<Option<Timestamp>>) -> bool {
    live.len() == deps.len() && forall|i: int|
        0 <= i < deps.len() ==> #[trigger] live[i] == Some(deps[i].time_stamp)
}

/// The file system as a map from path to modification time.
pub open spec fn live_times(deps: Seq<DependencyView>, fs: Map<Seq<char>, Timestamp>) -> Seq<Option<Timestamp>> {
    Seq::new(
        deps.len(),
        |i: int|
            if fs.contains_key(deps[i].path) {
                Some(fs[deps[i].path])
            } else {
                None
            },
    )
}

/// The record's dependencies all match the file system.
pub open spec fn fresh_in(deps: Seq<DependencyView>, fs: Map<Seq<char>, Timestamp>) -> bool {
    all_fresh(deps, live_times(deps, fs))
}

/// What a lookup returns: the recorded outputs where the record is fresh.
pub open spec fn lookup(c: Cache, live: Seq<Option<Timestamp>>) -> Option<Seq<OutputView>> {
    if all_fresh(dep_views(c.deps@), live) {
        Some(output_views(c.outputs@))
    } else {
        None
    }
}

/// A record whose dependencies all match the file system hands back its
/// outputs unchanged, so the task is not run again.
pub proof fn lemma_cache_sound(c: Cache, fs: Map<Seq<char>, Timestamp>)
    requires
        fresh_in(dep_views(c.deps@), fs),
    ensures
        lookup(c, live_times(dep_views(c.deps@), fs)) == Some(output_views(c.outputs@)),
        plan_of(false, lookup(c, live_times(dep_views(c.deps@), fs))) == Some(output_views(c.outputs@)),
{
}

/// Changing the time of one recorded dependency to anything but its recorded
/// time makes that record stale, whatever else the file system holds; a
/// record that does not list that file is exactly as fresh (or stale) as it
/// was before the change.
pub proof fn lemma_cache_live(
    deps: Seq<DependencyView>,
    other: Seq<DependencyView>,
    fs: Map<Seq<char>, Timestamp>,
    k: int,
    t: Timestamp,
)
    requires
        0 <= k < deps.len(),
        forall|i: int| 0 <= i < other.len() ==> (#[trigger] other[i]).path != deps[k].path,
    ensures
        t != deps[k].time_stamp ==> !fresh_in(deps, fs.insert(deps[k].path, t)),
        fresh_in(deps, fs) && fs.contains_key(deps[k].path) && t != fs[deps[k].path] ==> !fresh_in(
            deps,
            fs.insert(deps[k].path, t),
        ),
        fresh_in(other, fs.insert(deps[k].path, t)) == fresh_in(other, fs),
{
    let fs2 = fs.insert(deps[k].path, t);
    assert(live_times(deps, fs2)[k] == Some(t));
    if fresh_in(deps, fs) {
        assert(live_times(deps, fs)[k] == Some(deps[k].time_stamp));
    }
    assert(live_times(other, fs2) =~= live_times(other, fs)) by {
        assert forall|i: int| 0 <= i < other.len() implies live_times(other, fs2)[i] == live_times(other, fs)[i] by {
            assert(other[i].path != deps[k].path);
        }
    }
}

/// What the engine does with a task: the outputs to hand back unchanged, or
/// none, meaning the task runs.
pub open spec fn plan_of(force_rebuild: bool, cached: Option<Seq<OutputView>>) -> Option<Seq<OutputView>> {
    if force_rebuild {
        None
    } else {
        cached
    }
}

/// With the force flag every task runs, whatever its cache holds.
pub proof fn lemma_forced_rebuild(cached: Option<Seq<OutputView>>)
    ensures
        plan_of(true, cached) is None,
{
}

/// What the engine does next with a task.
pub enum Step {
    /// The cache is fresh: these are the task's outputs, and nothing runs.
    UseCached(Vec<TaskOutput>),
    /// The task runs, and a new record is written when it succeeds.
    Run,
}

pub open spec fn opt_output_views(v: Option<Vec<TaskOutput>>) -> Option<Seq<OutputView>> {
    match v {
        Some(v) => Some(output_views(v@)),
        None => None,
    }
}

/// Decides whether a task runs: it does under the force flag, or where no
/// fresh record was found.
pub fn plan_task(force_rebuild: bool, cached: Option<Vec<TaskOutput>>) -> (r: Step)
    ensures
        r matches Step::UseCached(o) ==> plan_of(force_rebuild, opt_output_views(cached)) == Some(output_views(o@)),
        r is Run ==> plan_of(force_rebuild, opt_output_views(cached)) is None,
{
    if force_rebuild {
        return Step::Run;
    }
    match cached {
        Some(o) => Step::UseCached(o),
        None => Step::Run,
    }
}

/// Combines two results: the outputs one after the other where both
/// succeeded, else the first error.
pub fn merge_task_results<E>(a: Result<Vec<TaskOutput>, E>, b: Result<Vec<TaskOutput>, E>) -> (r: Result<Vec<TaskOutput>, E>)
    ensures
        a is Ok && b is Ok ==> (r matches Ok(z) && z@ == a->Ok_0@ + b->Ok_0@),
        a matches Err(e) ==> r == Err::<Vec<TaskOutput>, E>(e),
        a is Ok && b is Err ==> r == Err::<Vec<TaskOutput>, E>(b->Err_0),
{
    match a {
        Ok(mut x) => match b {
            Ok(mut y) => {
                x.append(&mut y);
                Ok(x)
            },
            Err(e) => Err(e),
        },
        Err(e) => Err(e),
    }
}

impl Cache {
    pub fn new() -> (r: Cache)
        ensures
            r.deps@.len() == 0,
            r.outputs@.len() == 0,
    {
        Cache { deps: Vec::new(), outputs: Vec::new() }
    }

    /// Records one dependency, after those already recorded.
    pub fn add_dep(&mut self, path: String, time_stamp: Timestamp)
        ensures
            dep_views(final(self).deps@) == dep_views(old(self).deps@).push(DependencyView { path: path@, time_stamp }),
            final(self).outputs@ == old(self).outputs@,
    {
        let ghost before = self.deps@;
        self.deps.push(Dependency { path, time_stamp });
        assert(dep_views(self.deps@) =~= dep_views(before).push(DependencyView { path: path@, time_stamp }));
    }

    /// The recorded outputs, where every dependency is still there with its
    /// recorded time; `live[i]` is what the file system says now of the
    /// `i`-th dependency.
    pub fn cached_outputs(&self, live: &Vec<Option<Timestamp>>) -> (r: Option<Vec<TaskOutput>>)
        ensures
            r matches Some(o) ==> lookup(*self, live@) == Some(output_views(o@)),
            r is None ==> lookup(*self, live@) is None,
    {
        if live.len() != self.deps.len() {
            return None;
        }
        let mut i: usize = 0;
        while i < self.deps.len()
            invariant
                i <= self.deps.len(),
                live@.len() == self.deps@.len(),
                forall|k: int| 0 <= k < i ==> #[trigger] live@[k] == Some(dep_views(self.deps@)[k].time_stamp),
            decreases self.deps.len() - i,
        {
            let fresh = match live[i] {
                Some(t) => t == self.deps[i].time_stamp,
                None => false,
            };
            if !fresh {
                assert(!all_fresh(dep_views(self.deps@), live@)) by {
                    assert(live@[i as int] != Some(dep_views(self.deps@)[i as int].time_stamp));
                }
                return None;
            }
            i = i + 1;
        }
        let mut outputs: Vec<TaskOutput> = Vec::new();
        let mut k: usize = 0;
        while k < self.outputs.len()
            invariant
                k <= self.outputs.len(),
                output_views(outputs@) == output_views(self.outputs@).take(k as int),
            decreases self.outputs.len() - k,
        {
            let o = TaskOutput { uri: self.outputs[k].uri.clone(), file: self.outputs[k].file.clone() };
            let ghost before = outputs@;
            assert(o@ == self.outputs@[k as int]@);
            outputs.push(o);
            assert(output_views(outputs@) =~= output_views(before).push(self.outputs@[k as int]@));
            assert(output_views(outputs@) =~= output_views(self.outputs@).take(k + 1));
            k = k + 1;
        }
        assert(output_views(self.outputs@).take(k as int) =~= output_views(self.outputs@));
        Some(outputs)
    }
}

/// Where records are kept: the given directory, else a reserved directory
/// inside the output directory.
pub open spec fn cache_dir_of(output_dir: Seq<char>, cache_dir: Option<Seq<char>>) -> Seq<char> {
    match cache_dir {
        Some(d) => d,
        None => join_path(output_dir, "__frill_cache__"@),
    }
}

pub fn get_cache_dir(output_dir: &str, cache_dir: &Option<String>) -> (r: String)
    ensures
        r@ == cache_dir_of(output_dir@, match cache_dir { Some(d) => Some(d@), None => None }),
{
    match cache_dir {
        Some(d) => d.clone(),
        None => path_join(output_dir, "__frill_cache__"),
    }
}

/// Whether the index must be written: unless the file holds exactly the new text.
pub open spec fn index_write_needed(new_text: Seq<char>, old_text: Option<Seq<char>>) -> bool {
    old_text != Some(new_text)
}

/// Once the index holds a text, writing the same text again is skipped.
pub proof fn lemma_index_stable(text: Seq<char>)
    ensures
        !index_write_needed(text, Some(text)),
{
}

pub fn index_needs_write(new_text: &str, old_text: Option<&str>) -> (r: bool)
    ensures
        r == index_write_needed(new_text@, match old_text { Some(s) => Some(s@), None => None }),
{
    match old_text {
        Some(s) => !crate::text::str_eq(new_text, s),
        None => true,
    }
}

pub open spec fn spaces(n: nat) -> Seq<char>
    decreases n,
{
    if n == 0 {
        seq![]
    } else {
        spaces((n - 1) as nat).push(' ')
    }
}

/// `s` right-aligned in a field of `width` characters.
pub open spec fn pad_left(s: Seq<char>, width: nat) -> Seq<char> {
    if s.len() < width {
        spaces((width - s.len()) as nat) + s
    } else {
        s
    }
}

/// `[i/N] summary`, with the position counted from one and both numbers as
/// wide as N's decimal digits.
pub open spec fn progress_line_of(index: nat, count: nat, summary: Seq<char>) -> Seq<char> {
    let w = decimal(count).len();
    seq!['['] + pad_left(decimal(index + 1), w) + seq!['/'] + pad_left(decimal(count), w) + seq![']', ' '] + summary
}

fn push_padded(out: &mut String, n: u64, width: usize)
    ensures
        final(out)@ == old(out)@ + pad_left(decimal(n as nat), width as nat),
{
    let mut digits = String::new();
    push_decimal(&mut digits, n);
    assert(digits@ =~= decimal(n as nat));
    let len = digits.as_str().unicode_len();
    if len < width {
        let mut k: usize = 0;
        proof {
            reveal_strlit(" ");
        }
        while k < width - len
            invariant
                k <= width - len,
                out@ == old(out)@ + spaces(k as nat),
            decreases width - len - k,
        {
            proof {
                reveal_strlit(" ");
            }
            out.append(" ");
            k = k + 1;
            assert(out@ =~= old(out)@ + spaces(k as nat));
        }
    }
    out.append(digits.as_str());
    assert(final(out)@ =~= old(out)@ + pad_left(decimal(n as nat), width as nat));
}

/// The line printed when a task starts.
pub fn progress_line(index: u64, count: u64, summary: &str) -> (r: String)
    requires
        index < count,
    ensures
        r@ == progress_line_of(index as nat, count as nat, summary@),
{
    let mut digits = String::new();
    push_decimal(&mut digits, count);
    let width = digits.as_str().unicode_len();
    let mut r = String::new();
    proof {
        reveal_strlit("[");
        reveal_strlit("/");
        reveal_strlit("] ");
    }
    r.append("[");
    push_padded(&mut r, index + 1, width);
    r.append("/");
    push_padded(&mut r, count, width);
    r.append("] ");
    r.append(summary);
    assert(r@ =~= progress_line_of(index as nat, count as nat, summary@));
    r
}

/// What a running task sees: the directory its relative paths resolve
/// against, the source root for logical names, and the record of the files
/// it touched so far.
pub struct Context {
    cwd: String,
    source_root_dir: String,
    cache: Cache,
}

impl Context {
    pub closed spec fn spec_cwd(&self) -> Seq<char> {
        self.cwd@
    }

    pub closed spec fn spec_source_root_dir(&self) -> Seq<char> {
        self.source_root_dir@
    }

    pub closed spec fn spec_deps(&self) -> Seq<DependencyView> {
        dep_views(self.cache.deps@)
    }

    /// A context with no dependency recorded yet.
    pub fn new(cwd: String, source_root_dir: String) -> (r: Context)
        ensures
            r.spec_cwd() == cwd@,
            r.spec_source_root_dir() == source_root_dir@,
            r.spec_deps().len() == 0,
    {
        Context { cwd, source_root_dir, cache: Cache::new() }
    }

    pub fn cwd(&self) -> (r: &String)
        ensures
            r@ == self.spec_cwd(),
    {
        &self.cwd
    }

    pub fn source_root_dir(&self) -> (r: &String)
        ensures
            r@ == self.spec_source_root_dir(),
    {
        &self.source_root_dir
    }

    /// A path as the task's file operations see it: relative paths are taken
    /// against the context's directory.
    pub fn resolve_path(&self, path: &str) -> (r: String)
        ensures
            r@ == join_path(self.spec_cwd(), path@),
    {
        path_join(self.cwd.as_str(), path)
    }

    /// Records a released file with the time it had then.
    pub fn record_dependency(&mut self, path: String, time_stamp: Timestamp)
        ensures
            final(self).spec_deps() == old(self).spec_deps().push(DependencyView { path: path@, time_stamp }),
            final(self).spec_cwd() == old(self).spec_cwd(),
            final(self).spec_source_root_dir() == old(self).spec_source_root_dir(),
    {
        self.cache.add_dep(path, time_stamp);
    }

    /// The record to commit after the task succeeded: the files it touched,
    /// in order, and its outputs.
    pub fn into_record(self, outputs: Vec<TaskOutput>) -> (r: Cache)
        ensures
            dep_views(r.deps@) == self.spec_deps(),
            r.outputs@ == outputs@,
    {
        Cache { deps: self.cache.deps, outputs }
    }
}

} // verus!
