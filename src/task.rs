//! The compile task: one source file with its include directories and
//! preprocessor defines, both kept as value-ordered sets.

use vstd::prelude::*;
use crate::order::{sorted_of, sorted_set_of, strictly_sorted, views};
use crate::paths::{extension, forward_slashes, join_path, parent, path_extension, path_join, path_parent, relative_path, relative_to};
use crate::text::{hex_fixed, join, join_strings, push_hex, str_eq};

verus! {

/// What the fingerprint of a task is: the stable hash of its file, its
/// include directories and its defines, the two sets in increasing order.
pub uninterp spec fn stable_hash_of_task(
    file: Seq<char>,
    include_dirs: Seq<Seq<char>>,
    defines: Seq<Seq<char>>,
) -> u64;

/// Relies on near_stable_hasher::StableHasher (SipHash with fixed keys) fed
/// through std's `Hash` with the file as a path, the include directories as a
/// set of paths and the defines as a set of strings: the result depends on
/// those values alone.
#[verifier::external_body]
fn stable_hash(file: &String, include_dirs: &Vec<String>, defines: &Vec<String>) -> (r: u64)
    ensures
        r == stable_hash_of_task(file@, views(include_dirs@), views(defines@)),
{
    let key = (
        std::path::PathBuf::from(file),
        include_dirs.iter().map(std::path::PathBuf::from).collect::<std::collections::BTreeSet<_>>(),
        defines.iter().cloned().collect::<std::collections::BTreeSet<String>>(),
    );
    let mut hasher = near_stable_hasher::StableHasher::default();
    std::hash::Hash::hash(&key, &mut hasher);
    std::hash::Hasher::finish(&hasher)
}

/// The number of hexadecimal digits in a rendered fingerprint.
pub const FINGERPRINT_DIGITS: usize = 16;

/// The deepest nesting of includes that a compile follows.
pub const MAX_INCLUDE_DEPTH: usize = 50;

pub struct GLSLCompileTask {
    file: String,
    include_dirs: Vec<String>,
    defines: Vec<String>,
}

/// A task as a value: the two sets are listed in increasing order.
pub struct CompileTaskView {
    pub file: Seq<char>,
    pub include_dirs: Seq<Seq<char>>,
    pub defines: Seq<Seq<char>>,
}

impl View for GLSLCompileTask {
    type V = CompileTaskView;

    closed spec fn view(&self) -> CompileTaskView {
        CompileTaskView {
            file: self.file@,
            include_dirs: views(self.include_dirs@),
            defines: views(self.defines@),
        }
    }
}

/// The task for a file, include directories and defines given in any order
/// and possibly with repeats.
pub open spec fn task_model(
    file: Seq<char>,
    include_dirs: Seq<Seq<char>>,
    defines: Seq<Seq<char>>,
) -> CompileTaskView {
    CompileTaskView { file, include_dirs: sorted_of(include_dirs), defines: sorted_of(defines) }
}

pub open spec fn fingerprint(t: CompileTaskView) -> u64 {
    stable_hash_of_task(t.file, t.include_dirs, t.defines)
}

/// The fingerprint in fixed-width upper-case hexadecimal.
pub open spec fn fingerprint_hex(t: CompileTaskView) -> Seq<char> {
    hex_fixed(fingerprint(t) as nat, FINGERPRINT_DIGITS as nat)
}

pub open spec fn output_file_name_of(t: CompileTaskView) -> Seq<char> {
    fingerprint_hex(t) + seq!['.', 's', 'p', 'v']
}

pub open spec fn cache_file_name_of(t: CompileTaskView) -> Seq<char> {
    fingerprint_hex(t) + seq!['.', 'j', 's', 'o', 'n']
}

pub open spec fn flags_of(t: CompileTaskView) -> Seq<char> {
    join(t.defines, seq![','])
}

pub open spec fn summary_of(t: CompileTaskView) -> Seq<char> {
    seq!['C', 'o', 'm', 'p', 'i', 'l', 'i', 'n', 'g', ' '] + t.file + seq![' '] + flags_of(t)
}

/// The logical name of the task's artifact: the file's path below the source
/// root, then `/flags=` and the defines.
pub open spec fn uri_of(t: CompileTaskView, root: Seq<char>) -> Option<Seq<char>> {
    match relative_to(t.file, root) {
        Some(rel) => Some(
            forward_slashes(rel) + seq!['/', 'f', 'l', 'a', 'g', 's', '='] + flags_of(t),
        ),
        None => None,
    }
}

/// A task's identity is a function of its file, include directories and
/// defines alone: equal tasks have the same fingerprint, record name and
/// output name in every run and every process.
pub proof fn lemma_fingerprint_deterministic(a: CompileTaskView, b: CompileTaskView)
    requires
        a == b,
    ensures
        fingerprint(a) == fingerprint(b),
        cache_file_name_of(a) == cache_file_name_of(b),
        output_file_name_of(a) == output_file_name_of(b),
{
}

/// The order and repeats in which include directories and defines are given
/// do not change a task, its fingerprint or its output name.
pub proof fn lemma_identity_order_independent(
    file: Seq<char>,
    includes_a: Seq<Seq<char>>,
    includes_b: Seq<Seq<char>>,
    defines_a: Seq<Seq<char>>,
    defines_b: Seq<Seq<char>>,
)
    requires
        includes_a.to_set() == includes_b.to_set(),
        defines_a.to_set() == defines_b.to_set(),
    ensures
        task_model(file, includes_a, defines_a) == task_model(file, includes_b, defines_b),
        fingerprint(task_model(file, includes_a, defines_a)) == fingerprint(task_model(file, includes_b, defines_b)),
        output_file_name_of(task_model(file, includes_a, defines_a)) == output_file_name_of(
            task_model(file, includes_b, defines_b),
        ),
{
    assert(sorted_of(includes_a) == sorted_of(includes_b));
    assert(sorted_of(defines_a) == sorted_of(defines_b));
}

/// The pipeline stages that a shader source can be compiled for.
#[derive(Clone, Copy, Debug, PartialEq, Eq, Structural)]
pub enum ShaderStage {
    Vertex,
    Fragment,
    TessControl,
    TessEvaluation,
    Geometry,
    Compute,
    RayGeneration,
    AnyHit,
    ClosestHit,
    Miss,
    Intersection,
    Callable,
    Task,
    Mesh,
}

/// The stages in the order in which they are looked up.
pub open spec fn all_stages() -> Seq<ShaderStage> {
    seq![
        ShaderStage::Vertex,
        ShaderStage::Fragment,
        ShaderStage::TessControl,
        ShaderStage::TessEvaluation,
        ShaderStage::Geometry,
        ShaderStage::Compute,
        ShaderStage::RayGeneration,
        ShaderStage::AnyHit,
        ShaderStage::ClosestHit,
        ShaderStage::Miss,
        ShaderStage::Intersection,
        ShaderStage::Callable,
        ShaderStage::Task,
        ShaderStage::Mesh,
    ]
}

impl ShaderStage {
    pub open spec fn spec_extension(self) -> Seq<char> {
        match self {
            ShaderStage::Vertex => "vert"@,
            ShaderStage::Fragment => "frag"@,
            ShaderStage::TessControl => "tesc"@,
            ShaderStage::TessEvaluation => "tese"@,
            ShaderStage::Geometry => "geom"@,
            ShaderStage::Compute => "comp"@,
            ShaderStage::RayGeneration => "rgen"@,
            ShaderStage::AnyHit => "rahit"@,
            ShaderStage::ClosestHit => "rchit"@,
            ShaderStage::Miss => "rmiss"@,
            ShaderStage::Intersection => "rint"@,
            ShaderStage::Callable => "rcall"@,
            ShaderStage::Task => "task"@,
            ShaderStage::Mesh => "mesh"@,
        }
    }

    pub open spec fn spec_macro_name(self) -> Seq<char> {
        match self {
            ShaderStage::Vertex => "FRILL_SHADER_STAGE_VERT"@,
            ShaderStage::Fragment => "FRILL_SHADER_STAGE_FRAG"@,
            ShaderStage::TessControl => "FRILL_SHADER_STAGE_TESS_CONTROL"@,
            ShaderStage::TessEvaluation => "FRILL_SHADER_STAGE_TESS_EVALUATION"@,
            ShaderStage::Geometry => "FRILL_SHADER_STAGE_GEOM"@,
            ShaderStage::Compute => "FRILL_SHADER_STAGE_COMP"@,
            ShaderStage::RayGeneration => "FRILL_SHADER_STAGE_RAY_GEN"@,
            ShaderStage::AnyHit => "FRILL_SHADER_STAGE_ANY_HIT"@,
            ShaderStage::ClosestHit => "FRILL_SHADER_STAGE_CLOSEST_HIT"@,
            ShaderStage::Miss => "FRILL_SHADER_STAGE_MISS"@,
            ShaderStage::Intersection => "FRILL_SHADER_STAGE_INTERSECTION"@,
            ShaderStage::Callable => "FRILL_SHADER_STAGE_CALLABLE"@,
            ShaderStage::Task => "FRILL_SHADER_STAGE_TASK"@,
            ShaderStage::Mesh => "FRILL_SHADER_STAGE_MESH"@,
        }
    }

    /// The file extension that selects this stage.
    pub fn extension(&self) -> (r: &'static str)
        ensures
            r@ == self.spec_extension(),
    {
        match self {
            ShaderStage::Vertex => "vert",
            ShaderStage::Fragment => "frag",
            ShaderStage::TessControl => "tesc",
            ShaderStage::TessEvaluation => "tese",
            ShaderStage::Geometry => "geom",
            ShaderStage::Compute => "comp",
            ShaderStage::RayGeneration => "rgen",
            ShaderStage::AnyHit => "rahit",
            ShaderStage::ClosestHit => "rchit",
            ShaderStage::Miss => "rmiss",
            ShaderStage::Intersection => "rint",
            ShaderStage::Callable => "rcall",
            ShaderStage::Task => "task",
            ShaderStage::Mesh => "mesh",
        }
    }

    /// The preprocessor macro defined when compiling for this stage.
    pub fn macro_name(&self) -> (r: &'static str)
        ensures
            r@ == self.spec_macro_name(),
    {
        match self {
            ShaderStage::Vertex => "FRILL_SHADER_STAGE_VERT",
            ShaderStage::Fragment => "FRILL_SHADER_STAGE_FRAG",
            ShaderStage::TessControl => "FRILL_SHADER_STAGE_TESS_CONTROL",
            ShaderStage::TessEvaluation => "FRILL_SHADER_STAGE_TESS_EVALUATION",
            ShaderStage::Geometry => "FRILL_SHADER_STAGE_GEOM",
            ShaderStage::Compute => "FRILL_SHADER_STAGE_COMP",
            ShaderStage::RayGeneration => "FRILL_SHADER_STAGE_RAY_GEN",
            ShaderStage::AnyHit => "FRILL_SHADER_STAGE_ANY_HIT",
            ShaderStage::ClosestHit => "FRILL_SHADER_STAGE_CLOSEST_HIT",
            ShaderStage::Miss => "FRILL_SHADER_STAGE_MISS",
            ShaderStage::Intersection => "FRILL_SHADER_STAGE_INTERSECTION",
            ShaderStage::Callable => "FRILL_SHADER_STAGE_CALLABLE",
            ShaderStage::Task => "FRILL_SHADER_STAGE_TASK",
            ShaderStage::Mesh => "FRILL_SHADER_STAGE_MESH",
        }
    }
}

fn stage_list() -> (r: Vec<ShaderStage>)
    ensures
        r@ == all_stages(),
{
    let r = vec![
        ShaderStage::Vertex,
        ShaderStage::Fragment,
        ShaderStage::TessControl,
        ShaderStage::TessEvaluation,
        ShaderStage::Geometry,
        ShaderStage::Compute,
        ShaderStage::RayGeneration,
        ShaderStage::AnyHit,
        ShaderStage::ClosestHit,
        ShaderStage::Miss,
        ShaderStage::Intersection,
        ShaderStage::Callable,
        ShaderStage::Task,
        ShaderStage::Mesh,
    ];
    assert(r@ =~= all_stages());
    r
}

/// The first of `stages` whose extension (or, with `by_macro`, whose macro)
/// is `key`.
pub open spec fn find_stage(stages: Seq<ShaderStage>, key: Seq<char>, by_macro: bool) -> Option<ShaderStage>
    decreases stages.len(),
{
    if stages.len() == 0 {
        None
    } else if (if by_macro { stages[0].spec_macro_name() } else { stages[0].spec_extension() }) == key {
        Some(stages[0])
    } else {
        find_stage(stages.drop_first(), key, by_macro)
    }
}

pub open spec fn stage_for_extension(ext: Seq<char>) -> Option<ShaderStage> {
    find_stage(all_stages(), ext, false)
}

pub open spec fn stage_for_macro(name: Seq<char>) -> Option<ShaderStage> {
    find_stage(all_stages(), name, true)
}

/// The stage named by the first define (in increasing order) that is a stage macro.
pub open spec fn first_define_stage(defines: Seq<Seq<char>>) -> Option<ShaderStage>
    decreases defines.len(),
{
    if defines.len() == 0 {
        None
    } else if stage_for_macro(defines[0]) is Some {
        stage_for_macro(defines[0])
    } else {
        first_define_stage(defines.drop_first())
    }
}

/// Why no stage could be chosen for a task.
#[derive(Clone, Copy, Debug, PartialEq, Eq, Structural)]
pub enum StageError {
    /// The file's extension names no stage and is not `glsl`.
    InvalidExtension,
    /// A `glsl` file whose defines hold no stage macro.
    MissingStageMacro,
}

pub open spec fn stage_of(t: CompileTaskView) -> Result<ShaderStage, StageError> {
    match extension(t.file) {
        Some(ext) => match stage_for_extension(ext) {
            Some(s) => Ok(s),
            None => if ext == "glsl"@ {
                match first_define_stage(t.defines) {
                    Some(s) => Ok(s),
                    None => Err(StageError::MissingStageMacro),
                }
            } else {
                Err(StageError::InvalidExtension)
            },
        },
        None => Err(StageError::InvalidExtension),
    }
}

pub open spec fn stage_macro_of(t: CompileTaskView) -> Option<Seq<char>> {
    match extension(t.file) {
        Some(ext) => match stage_for_extension(ext) {
            Some(s) => Some(s.spec_macro_name()),
            None => None,
        },
        None => None,
    }
}

/// The macros a compile defines: the stage macro, if the extension names one,
/// then the task's defines.
pub open spec fn compile_macros_of(t: CompileTaskView) -> Seq<Seq<char>> {
    match stage_macro_of(t) {
        Some(m) => seq![m] + t.defines,
        None => t.defines,
    }
}

/// Where an include is looked for, in order: beside the including file for a
/// relative include, then in each include directory.
pub open spec fn include_candidates_of(
    t: CompileTaskView,
    requested: Seq<char>,
    requesting: Seq<char>,
    relative: bool,
) -> Seq<Seq<char>> {
    let local = if relative && parent(requesting) is Some {
        seq![join_path(parent(requesting)->0, requested)]
    } else {
        seq![]
    };
    local + t.include_dirs.map_values(|d: Seq<char>| join_path(d, requested))
}

/// Why an include could not be resolved.
#[derive(Clone, Copy, Debug, PartialEq, Eq, Structural)]
pub enum IncludeError {
    /// Includes are nested deeper than the limit.
    DepthExceeded,
}

fn find_stage_in(stages: &Vec<ShaderStage>, key: &str, by_macro: bool) -> (r: Option<ShaderStage>)
    ensures
        r == find_stage(stages@, key@, by_macro),
{
    let mut i: usize = 0;
    assert(stages@.skip(0) =~= stages@);
    while i < stages.len()
        invariant
            i <= stages.len(),
            find_stage(stages@, key@, by_macro) == find_stage(stages@.skip(i as int), key@, by_macro),
        decreases stages.len() - i,
    {
        let s = stages[i];
        let name = if by_macro { s.macro_name() } else { s.extension() };
        assert(stages@.skip(i as int)[0] == s);
        if str_eq(name, key) {
            return Some(s);
        }
        assert(stages@.skip(i as int).drop_first() =~= stages@.skip(i + 1));
        i = i + 1;
    }
    None
}

fn stage_for(key: &str, by_macro: bool) -> (r: Option<ShaderStage>)
    ensures
        r == find_stage(all_stages(), key@, by_macro),
{
    let stages = stage_list();
    find_stage_in(&stages, key, by_macro)
}

impl GLSLCompileTask {
    pub open spec fn wf(&self) -> bool {
        strictly_sorted(self@.include_dirs) && strictly_sorted(self@.defines)
    }

    /// A task for `file`; include directories and defines may come in any
    /// order and with repeats.
    pub fn new(file: String, include_dirs: Vec<String>, defines: Vec<String>) -> (r: Self)
        ensures
            r@ == task_model(file@, views(include_dirs@), views(defines@)),
            r.wf(),
    {
        let r = GLSLCompileTask {
            file,
            include_dirs: sorted_set_of(include_dirs),
            defines: sorted_set_of(defines),
        };
        r
    }

    pub fn file(&self) -> (r: &String)
        ensures
            r@ == self@.file,
    {
        &self.file
    }

    pub fn include_dirs(&self) -> (r: &Vec<String>)
        ensures
            views(r@) == self@.include_dirs,
    {
        &self.include_dirs
    }

    pub fn defines(&self) -> (r: &Vec<String>)
        ensures
            views(r@) == self@.defines,
    {
        &self.defines
    }

    /// The task's stable identity.
    pub fn calc_hash(&self) -> (r: u64)
        ensures
            r == fingerprint(self@),
    {
        stable_hash(&self.file, &self.include_dirs, &self.defines)
    }

    /// The fingerprint as a fixed-width upper-case hexadecimal string.
    pub fn fingerprint_hex(&self) -> (r: String)
        ensures
            r@ == fingerprint_hex(self@),
    {
        let mut r = String::new();
        push_hex(&mut r, self.calc_hash(), FINGERPRINT_DIGITS);
        r
    }

    /// The name of the compiled artifact, after the fingerprint.
    pub fn output_file_name(&self) -> (r: String)
        ensures
            r@ == output_file_name_of(self@),
    {
        proof {
            reveal_strlit(".spv");
        }
        let r = self.fingerprint_hex().concat(".spv");
        assert(r@ =~= output_file_name_of(self@));
        r
    }

    /// The name of the task's cache record, after the fingerprint.
    pub fn cache_file_name(&self) -> (r: String)
        ensures
            r@ == cache_file_name_of(self@),
    {
        proof {
            reveal_strlit(".json");
        }
        let r = self.fingerprint_hex().concat(".json");
        assert(r@ =~= cache_file_name_of(self@));
        r
    }

    /// A line that says what the task does.
    pub fn summary(&self) -> (r: String)
        ensures
            r@ == summary_of(self@),
    {
        proof {
            reveal_strlit("Compiling ");
            reveal_strlit(" ");
            reveal_strlit(",");
        }
        let flags = join_strings(&self.defines, ",");
        assert(","@ =~= seq![',']);
        let r = "Compiling ".to_string().concat(self.file.as_str()).concat(" ").concat(flags.as_str());
        assert(r@ =~= summary_of(self@));
        r
    }

    /// The logical name of the artifact, or none where the file does not lie
    /// below `root_folder`.
    pub fn uri(&self, root_folder: &str) -> (r: Option<String>)
        ensures
            r matches Some(u) ==> uri_of(self@, root_folder@) == Some(u@),
            r is None ==> uri_of(self@, root_folder@) is None,
    {
        match relative_path(self.file.as_str(), root_folder) {
            Some(rel) => {
                proof {
                    reveal_strlit("/flags=");
                    reveal_strlit(",");
                }
                let flags = join_strings(&self.defines, ",");
                assert(","@ =~= seq![',']);
                let r = rel.concat("/flags=").concat(flags.as_str());
                assert(r@ =~= uri_of(self@, root_folder@)->0);
                Some(r)
            },
            None => None,
        }
    }

    /// The macro that names the stage the file's extension selects.
    pub fn stage_macro(&self) -> (r: Option<String>)
        ensures
            r matches Some(m) ==> stage_macro_of(self@) == Some(m@),
            r is None ==> stage_macro_of(self@) is None,
    {
        match path_extension(self.file.as_str()) {
            Some(ext) => match stage_for(ext.as_str(), false) {
                Some(s) => Some(s.macro_name().to_string()),
                None => None,
            },
            None => None,
        }
    }

    /// The stage to compile for: from the extension, or for a `glsl` file
    /// from the first define that is a stage macro.
    pub fn shader_kind(&self) -> (r: Result<ShaderStage, StageError>)
        requires
            self.wf(),
        ensures
            r == stage_of(self@),
    {
        match path_extension(self.file.as_str()) {
            Some(ext) => match stage_for(ext.as_str(), false) {
                Some(s) => Ok(s),
                None => {
                    if str_eq(ext.as_str(), "glsl") {
                        let mut i: usize = 0;
                        assert(self@.defines.skip(0) =~= self@.defines);
                        while i < self.defines.len()
                            invariant
                                i <= self.defines.len(),
                                views(self.defines@) == self@.defines,
                                extension(self@.file) == Some(ext@),
                                stage_for_extension(ext@) is None,
                                ext@ == "glsl"@,
                                first_define_stage(self@.defines) == first_define_stage(
                                    self@.defines.skip(i as int),
                                ),
                            decreases self.defines.len() - i,
                        {
                            assert(self@.defines.skip(i as int)[0] == self.defines[i as int]@);
                            match stage_for(self.defines[i].as_str(), true) {
                                Some(s) => {
                                    return Ok(s);
                                },
                                None => {},
                            }
                            assert(self@.defines.skip(i as int).drop_first() =~= self@.defines.skip(i + 1));
                            i = i + 1;
                        }
                        Err(StageError::MissingStageMacro)
                    } else {
                        Err(StageError::InvalidExtension)
                    }
                },
            },
            None => Err(StageError::InvalidExtension),
        }
    }

    /// The macros to define for the compile: the stage macro, then the defines.
    pub fn compile_macros(&self) -> (r: Vec<String>)
        ensures
            views(r@) == compile_macros_of(self@),
    {
        let mut r: Vec<String> = Vec::new();
        match self.stage_macro() {
            Some(m) => r.push(m),
            None => {},
        }
        let ghost start = views(r@);
        let mut i: usize = 0;
        while i < self.defines.len()
            invariant
                i <= self.defines.len(),
                views(r@) == start + views(self.defines@).take(i as int),
            decreases self.defines.len() - i,
        {
            let ghost before = r@;
            r.push(self.defines[i].clone());
            assert(views(r@) =~= views(before).push(self.defines[i as int]@));
            assert(views(self.defines@).take(i + 1) =~= views(self.defines@).take(i as int).push(self.defines[i as int]@));
            assert(views(r@) =~= start + views(self.defines@).take(i + 1));
            i = i + 1;
        }
        assert(views(self.defines@).take(i as int) =~= views(self.defines@));
        assert(views(r@) =~= compile_macros_of(self@));
        r
    }

    /// The paths at which an include is looked for, in order; an error where
    /// the include nesting is deeper than the limit.
    pub fn include_candidates(
        &self,
        requested: &str,
        requesting: &str,
        relative: bool,
        depth: usize,
    ) -> (r: Result<Vec<String>, IncludeError>)
        ensures
            depth > MAX_INCLUDE_DEPTH ==> r == Err::<Vec<String>, IncludeError>(IncludeError::DepthExceeded),
            depth <= MAX_INCLUDE_DEPTH ==> (r matches Ok(v) && views(v@) == include_candidates_of(
                self@,
                requested@,
                requesting@,
                relative,
            )),
    {
        if depth > MAX_INCLUDE_DEPTH {
            return Err(IncludeError::DepthExceeded);
        }
        let mut r: Vec<String> = Vec::new();
        if relative {
            match path_parent(requesting) {
                Some(dir) => r.push(path_join(dir.as_str(), requested)),
                None => {},
            }
        }
        let ghost start = views(r@);
        let ghost dirs = self@.include_dirs.map_values(|d: Seq<char>| join_path(d, requested@));
        let mut i: usize = 0;
        while i < self.include_dirs.len()
            invariant
                i <= self.include_dirs.len(),
                dirs.len() == self.include_dirs.len(),
                dirs == self@.include_dirs.map_values(|d: Seq<char>| join_path(d, requested@)),
                self@.include_dirs == views(self.include_dirs@),
                views(r@) == start + dirs.take(i as int),
            decreases self.include_dirs.len() - i,
        {
            let ghost before = r@;
            r.push(path_join(self.include_dirs[i].as_str(), requested));
            assert(views(r@) =~= views(before).push(dirs[i as int]));
            assert(dirs.take(i + 1) =~= dirs.take(i as int).push(dirs[i as int]));
            assert(views(r@) =~= start + dirs.take(i + 1));
            i = i + 1;
        }
        assert(dirs.take(i as int) =~= dirs);
        assert(views(r@) =~= include_candidates_of(self@, requested@, requesting@, relative));
        Ok(r)
    }
}

} // verus!
