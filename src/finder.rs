use vstd::prelude::*;

use crate::state::text_view;
use crate::text::{
    before_comma, contains_text, field_before_comma, has_infix, joined, join_path, same_text,
    trim_matching, trimmed,
};

verus! {

/// The file name of the game's executable.
pub open spec fn exe_name() -> Seq<char> {
    "Among Us.exe"@
}

/// The file name of the game's executable.
pub fn among_us_exe() -> (r: &'static str)
    ensures
        r@ == exe_name(),
{
    "Among Us.exe"
}

/// What was seen of a candidate directory on disk.
pub struct DirectoryProbe {
    /// The path exists and is a directory.
    pub is_dir: bool,
    /// Names of the regular files directly inside it.
    pub files: Vec<String>,
}

/// The directory holds the game's executable as a direct child.
pub open spec fn holds_executable(p: DirectoryProbe) -> bool {
    p.is_dir && exists|i: int| 0 <= i < p.files@.len() && (#[trigger] p.files@[i])@ == exe_name()
}

/// Whether the probed directory is an installation of the game.
pub fn verify_among_us_directory(probe: &DirectoryProbe) -> (r: bool)
    ensures
        r == holds_executable(*probe),
{
    if !probe.is_dir {
        return false;
    }
    let exe = among_us_exe();
    let mut i: usize = 0;
    while i < probe.files.len()
        invariant
            i <= probe.files@.len(),
            probe.is_dir,
            exe@ == exe_name(),
            forall|j: int| 0 <= j < i ==> (#[trigger] probe.files@[j])@ != exe_name(),
        decreases probe.files@.len() - i,
    {
        if same_text(probe.files[i].as_str(), exe) {
            assert((probe.files@[i as int])@ == exe_name());
            return true;
        }
        i = i + 1;
    }
    false
}

/// A running process as the process table reports it.
pub struct ProcessRecord {
    /// The process name.
    pub name: String,
    /// The path of its executable, where the table gives one.
    pub exe: Option<String>,
}

/// The process is named `name` and reports a non-empty executable path.
pub open spec fn usable(p: ProcessRecord, name: Seq<char>) -> bool {
    p.name@ == name && p.exe is Some && p.exe->0@.len() > 0
}

/// `i` is the first process in `procs` that is usable under `name`.
pub open spec fn first_usable(procs: Seq<ProcessRecord>, name: Seq<char>, i: int) -> bool {
    &&& 0 <= i < procs.len()
    &&& usable(procs[i], name)
    &&& forall|j: int| 0 <= j < i ==> !usable(#[trigger] procs[j], name)
}

/// The executable path of the first process named `name` that reports one.
pub open spec fn process_exe_of(procs: Seq<ProcessRecord>, name: Seq<char>) -> Option<Seq<char>> {
    if exists|i: int| first_usable(procs, name, i) {
        let i = choose|i: int| first_usable(procs, name, i);
        Some(procs[i].exe->0@)
    } else {
        None
    }
}

proof fn lemma_first_usable_unique(procs: Seq<ProcessRecord>, name: Seq<char>, i: int)
    requires
        first_usable(procs, name, i),
    ensures
        process_exe_of(procs, name) == Some(procs[i].exe->0@),
{
    let k = choose|k: int| first_usable(procs, name, k);
    assert(first_usable(procs, name, k));
    if k < i {
        assert(!usable(procs[k], name));
    } else if k > i {
        assert(!usable(procs[i], name));
    }
}

/// The executable path of the first process named `name` that reports one.
pub fn process_executable(procs: &Vec<ProcessRecord>, name: &str) -> (r: Option<String>)
    ensures
        text_view(r) == process_exe_of(procs@, name@),
        r is None <==> forall|j: int| 0 <= j < procs@.len() ==> !usable(#[trigger] procs@[j], name@),
{
    let mut i: usize = 0;
    while i < procs.len()
        invariant
            i <= procs@.len(),
            forall|j: int| 0 <= j < i ==> !usable(#[trigger] procs@[j], name@),
        decreases procs@.len() - i,
    {
        let p = &procs[i];
        if same_text(p.name.as_str(), name) {
            match &p.exe {
                Some(e) => {
                    if e.as_str().unicode_len() > 0 {
                        proof {
                            lemma_first_usable_unique(procs@, name@, i as int);
                        }
                        return Some(e.clone());
                    }
                },
                None => {},
            }
        }
        i = i + 1;
    }
    proof {
        assert forall|k: int| !first_usable(procs@, name@, k) by {
            if first_usable(procs@, name@, k) {
                assert(!usable(procs@[k], name@));
            }
        }
    }
    None
}

/// The parent directory of a path, as `std::path::Path::parent` gives it for
/// the target that the library is built for (Windows and Unix differ in their
/// separators).
pub uninterp spec fn parent_of(p: Seq<char>) -> Option<Seq<char>>;

/// Relies on std::path::Path::parent: for one build target the result
/// depends on the path's text alone; the parent is a leading part of the
/// path, and the empty path has none.
#[verifier::external_body]
fn parent_dir(p: &str) -> (r: Option<String>)
    ensures
        text_view(r) == parent_of(p@),
        p@.len() == 0 ==> r is None,
        r matches Some(d) ==> d@.len() <= p@.len() && d@ == p@.subrange(0, d@.len() as int),
{
    std::path::Path::new(p).parent().map(|d| d.to_string_lossy().into_owned())
}

/// The parent of an optional path.
pub open spec fn parent_of_opt(p: Option<Seq<char>>) -> Option<Seq<char>> {
    match p {
        Some(e) => parent_of(e),
        None => None,
    }
}

/// An optional value as a sequence of zero or one elements.
pub open spec fn opt_seq(o: Option<Seq<char>>) -> Seq<Seq<char>> {
    match o {
        Some(x) => seq![x],
        None => Seq::empty(),
    }
}

/// The texts of a sequence of strings.
pub open spec fn texts(v: Seq<String>) -> Seq<Seq<char>> {
    v.map_values(|s: String| s@)
}

/// The directory of the executable that the first process named `name` reports.
pub fn process_directory(procs: &Vec<ProcessRecord>, name: &str) -> (r: Option<String>)
    ensures
        text_view(r) == parent_of_opt(process_exe_of(procs@, name@)),
{
    match process_executable(procs, name) {
        Some(e) => parent_dir(e.as_str()),
        None => None,
    }
}

/// The directories to check, taken from the running processes, in the order
/// of the game's process names ("Among Us.exe", then "Among Us"): for each,
/// the parent of the executable path of the first process of that name that
/// reports one, where there is such a parent.
pub open spec fn process_dirs(procs: Seq<ProcessRecord>) -> Seq<Seq<char>> {
    opt_seq(parent_of_opt(process_exe_of(procs, exe_name())))
        + opt_seq(parent_of_opt(process_exe_of(procs, "Among Us"@)))
}

/// The directories to check, taken from the running processes.
pub fn process_candidates(procs: &Vec<ProcessRecord>) -> (r: Vec<String>)
    ensures
        texts(r@) == process_dirs(procs@),
{
    let mut r: Vec<String> = Vec::new();
    let first = among_us_exe();
    let second = "Among Us";
    let a = process_directory(procs, first);
    let b = process_directory(procs, second);
    if let Some(d) = a {
        r.push(d);
    }
    assert(texts(r@) =~= opt_seq(text_view(a)));
    let ghost mid = r@;
    if let Some(d) = b {
        r.push(d);
    }
    assert(texts(r@) =~= texts(mid) + opt_seq(text_view(b)));
    r
}

/// The executable path that a registration's icon value names: the part before
/// the first comma, without surrounding white space and then without
/// surrounding quotes; nothing when that leaves no text.
pub open spec fn icon_exe(raw: Seq<char>) -> Option<Seq<char>> {
    let p = trimmed(trimmed(before_comma(raw), false), true);
    if p.len() == 0 {
        None
    } else {
        Some(p)
    }
}

/// The executable path that a registration's icon value names.
pub fn icon_executable(raw: &str) -> (r: Option<String>)
    ensures
        text_view(r) == icon_exe(raw@),
{
    let field = field_before_comma(raw);
    let trimmed_field = trim_matching(field, false);
    let unquoted = trim_matching(trimmed_field, true);
    if unquoted.unicode_len() == 0 {
        None
    } else {
        Some(String::from_str(unquoted))
    }
}

/// The directory of the executable that a registration's icon value names.
pub fn parse_registry_icon_value(raw: &str) -> (r: Option<String>)
    ensures
        text_view(r) == parent_of_opt(icon_exe(raw@)),
{
    match icon_executable(raw) {
        Some(e) => parent_dir(e.as_str()),
        None => None,
    }
}

/// The registration keys tried, in order.
pub fn registry_keys() -> (r: Vec<&'static str>)
    ensures
        r@.len() == 2,
        r@[0]@ == "AmongUs"@,
        r@[1]@ == "amongus"@,
{
    let mut r: Vec<&'static str> = Vec::new();
    r.push("AmongUs");
    r.push("amongus");
    r
}

/// The directory named by one registration's icon value, if the value was read.
pub open spec fn icon_dir(v: Option<String>) -> Option<Seq<char>> {
    match v {
        Some(raw) => parent_of_opt(icon_exe(raw@)),
        None => None,
    }
}

/// The directories to check, in the order of the registration keys: for each
/// icon value that was read, the parent of the executable path it names,
/// where both are there.
pub open spec fn icon_dirs(values: Seq<Option<String>>) -> Seq<Seq<char>>
    decreases values.len(),
{
    if values.len() == 0 {
        Seq::empty()
    } else {
        icon_dirs(values.drop_last()) + opt_seq(icon_dir(values.last()))
    }
}

/// The directories to check, taken from the icon values read under each
/// registration key (nothing where the key or its value was missing).
pub fn registry_candidates(values: &Vec<Option<String>>) -> (r: Vec<String>)
    ensures
        texts(r@) == icon_dirs(values@),
{
    let mut r: Vec<String> = Vec::new();
    let mut i: usize = 0;
    assert(values@.subrange(0, 0) =~= Seq::<Option<String>>::empty());
    while i < values.len()
        invariant
            i <= values@.len(),
            texts(r@) == icon_dirs(values@.subrange(0, i as int)),
        decreases values@.len() - i,
    {
        let ghost before = r@;
        let mut hit: Option<String> = None;
        if let Some(raw) = &values[i] {
            hit = parse_registry_icon_value(raw.as_str());
        }
        assert(text_view(hit) == icon_dir(values@[i as int]));
        if let Some(d) = hit {
            r.push(d);
        }
        assert(texts(r@) =~= texts(before) + opt_seq(icon_dir(values@[i as int])));
        assert(values@.subrange(0, i + 1).drop_last() =~= values@.subrange(0, i as int));
        i = i + 1;
    }
    assert(values@.subrange(0, i as int) =~= values@);
    r
}

/// `i` is the first probe that shows an installation.
pub open spec fn first_verified_at(probes: Seq<DirectoryProbe>, i: int) -> bool {
    &&& 0 <= i < probes.len()
    &&& holds_executable(probes[i])
    &&& forall|j: int| 0 <= j < i ==> !holds_executable(#[trigger] probes[j])
}

/// The first candidate whose probe shows an installation; `probes[i]` is what
/// was seen at `candidates[i]`.
pub fn first_verified(candidates: &Vec<String>, probes: &Vec<DirectoryProbe>) -> (r: Option<String>)
    requires
        candidates@.len() == probes@.len(),
    ensures
        r is None <==> forall|j: int| 0 <= j < probes@.len() ==> !holds_executable(#[trigger] probes@[j]),
        r matches Some(d) ==> exists|i: int|
            first_verified_at(probes@, i) && d@ == (#[trigger] candidates@[i])@,
{
    let mut i: usize = 0;
    while i < probes.len()
        invariant
            i <= probes@.len(),
            candidates@.len() == probes@.len(),
            forall|j: int| 0 <= j < i ==> !holds_executable(#[trigger] probes@[j]),
        decreases probes@.len() - i,
    {
        if verify_among_us_directory(&probes[i]) {
            assert(first_verified_at(probes@, i as int));
            return Some(candidates[i].clone());
        }
        i = i + 1;
    }
    None
}

/// Where a resolution pass stands: the next source to consult, or its result.
pub enum Lookup {
    /// Consult the running processes.
    Processes,
    /// Consult the OS registration (or, where there is none, the well-known
    /// install location).
    Registry,
    /// Done: the verified directory, if one was found.
    Finished(Vec<String>),
}

/// `r` is what follows `at` once the source it names gave `hit` (a verified
/// directory, or nothing).
pub open spec fn lookup_step(at: Lookup, hit: Option<String>, r: Lookup) -> bool {
    match at {
        Lookup::Processes => match hit {
            Some(d) => r matches Lookup::Finished(v) && v@.len() == 1 && v@[0]@ == d@,
            None => r is Registry,
        },
        Lookup::Registry => match hit {
            Some(d) => r matches Lookup::Finished(v) && v@.len() == 1 && v@[0]@ == d@,
            None => r matches Lookup::Finished(v) && v@.len() == 0,
        },
        Lookup::Finished(_) => false,
    }
}

/// A resolution pass starts with the running processes.
pub fn discovery_start() -> (r: Lookup)
    ensures
        r is Processes,
{
    Lookup::Processes
}

/// Moves a resolution pass on once the source that `at` names has answered.
pub fn discovery_step(at: Lookup, hit: Option<String>) -> (r: Lookup)
    requires
        !(at is Finished),
    ensures
        lookup_step(at, hit, r),
{
    match at {
        Lookup::Processes => match hit {
            Some(d) => Lookup::Finished(vec![d]),
            None => Lookup::Registry,
        },
        _ => match hit {
            Some(d) => Lookup::Finished(vec![d]),
            None => Lookup::Finished(Vec::new()),
        },
    }
}

/// A verified directory from the running processes ends the pass at once: the
/// registry is never consulted after it, and that directory is the result.
pub proof fn lemma_process_hit_skips_registry(d: String, r: Lookup)
    requires
        lookup_step(Lookup::Processes, Some(d), r),
    ensures
        !(r is Registry),
        r matches Lookup::Finished(v) && v@.len() == 1 && v@[0]@ == d@,
{
}

/// Relies on str::to_lowercase: the lower-case form depends on the text alone.
#[verifier::external_body]
fn lowercase(s: &str) -> (r: String)
    ensures
        r@ == lowercase_of(s@),
{
    s.to_lowercase()
}

/// The lower-case form of a text, as `str::to_lowercase` gives it.
pub uninterp spec fn lowercase_of(s: Seq<char>) -> Seq<char>;

/// Whether some process in `names` is named exactly `target`.
pub fn any_process_named(names: &Vec<String>, target: &str) -> (r: bool)
    ensures
        r == exists|i: int| 0 <= i < names@.len() && (#[trigger] names@[i])@ == target@,
{
    let mut i: usize = 0;
    while i < names.len()
        invariant
            i <= names@.len(),
            forall|j: int| 0 <= j < i ==> (#[trigger] names@[j])@ != target@,
        decreases names@.len() - i,
    {
        if same_text(names[i].as_str(), target) {
            assert((names@[i as int])@ == target@);
            return true;
        }
        i = i + 1;
    }
    false
}

/// Whether a process named exactly like the game, under either of its names,
/// is among `names`.
pub fn running_by_exact_name(names: &Vec<String>) -> (r: bool)
    ensures
        r == exists|i: int| 0 <= i < names@.len()
            && ((#[trigger] names@[i])@ == exe_name() || names@[i]@ == "Among Us"@),
{
    let a = any_process_named(names, among_us_exe());
    let b = any_process_named(names, "Among Us");
    a || b
}

/// Whether a process whose lower-cased name contains "among us" is among `names`.
pub fn is_among_us_running(names: &Vec<String>) -> (r: bool)
    ensures
        r == exists|i: int| 0 <= i < names@.len()
            && has_infix(lowercase_of((#[trigger] names@[i])@), "among us"@),
{
    let mut i: usize = 0;
    while i < names.len()
        invariant
            i <= names@.len(),
            forall|j: int| 0 <= j < i ==> !has_infix(lowercase_of((#[trigger] names@[j])@), "among us"@),
        decreases names@.len() - i,
    {
        let lower = lowercase(names[i].as_str());
        if contains_text(lower.as_str(), "among us") {
            return true;
        }
        i = i + 1;
    }
    false
}

/// The well-known install location under a home directory, where the OS has
/// no registration to read.
pub fn steam_library_dir(home: &str) -> (r: String)
    ensures
        r@ == joined(home@, ".local/share/Steam/steamapps/common/Among Us"@),
{
    join_path(home, ".local/share/Steam/steamapps/common/Among Us")
}

} // verus!
