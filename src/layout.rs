//! Where outputs land: `ROOT/<parameter identity>/[<input identity>-]<filename>`, with
//! idempotent directory creation and write-once parameter files.
use vstd::prelude::*;

verus! {

/// `seg` appended to the path `base` as one more component. An absolute `seg` replaces
/// `base`; a separator is added unless `base` is empty or already ends with one.
pub open spec fn join_path(base: Seq<char>, seg: Seq<char>) -> Seq<char> {
    if seg.len() > 0 && seg[0] == '/' {
        seg
    } else if base.len() == 0 || base.last() == '/' {
        base + seg
    } else {
        base + "/"@ + seg
    }
}

/// The name of an output file: `filename`, prefixed with `"{input}-"` when an input
/// identity is given.
pub open spec fn output_file_name(input_id: Option<Seq<char>>, filename: Seq<char>) -> Seq<char> {
    match input_id {
        Some(i) => i + "-"@ + filename,
        None => filename,
    }
}

/// The view of an optional `&str`.
pub open spec fn opt_view(s: Option<&str>) -> Option<Seq<char>> {
    match s {
        Some(x) => Some(x@),
        None => None,
    }
}

/// Appends the path component `seg` to `base`.
pub fn join(base: &str, seg: &str) -> (r: String)
    ensures
        r@ == join_path(base@, seg@),
{
    let seg_len = seg.unicode_len();
    if seg_len > 0 && seg.get_char(0) == '/' {
        return String::from_str(seg);
    }
    let base_len = base.unicode_len();
    let mut out = String::from_str(base);
    if base_len > 0 && base.get_char(base_len - 1) != '/' {
        out.append("/");
    }
    out.append(seg);
    out
}

/// The directory of a parameter set: `root/<parameter identity>`.
pub fn parameter_dir(root: &str, param_id: &str) -> (r: String)
    ensures
        r@ == join_path(root@, param_id@),
{
    join(root, param_id)
}

/// The path of an output file in the (created and canonicalised) parameter directory `dir`:
/// `dir/filename`, or `dir/<input identity>-filename` when an input identity is given.
pub fn output_path(dir: &str, input_id: Option<&str>, filename: &str) -> (r: String)
    ensures
        r@ == join_path(dir@, output_file_name(opt_view(input_id), filename@)),
{
    match input_id {
        Some(i) => {
            let mut name = String::from_str(i);
            name.append("-");
            name.append(filename);
            join(dir, name.as_str())
        },
        None => join(dir, filename),
    }
}

/// The path `dir/<input identity><suffix>`, as used for the scheduler's log files
/// (`suffix` is `.err` or `.out`).
pub fn prefixed_path(dir: &str, input_id: &str, suffix: &str) -> (r: String)
    ensures
        r@ == join_path(dir@, input_id@ + suffix@),
{
    let mut name = String::from_str(input_id);
    name.append(suffix);
    join(dir, name.as_str())
}

/// What an attempt to create a directory (and its parents) reported.
#[derive(Debug, Copy, Clone, PartialEq, Eq, Structural)]
pub enum DirCreation {
    Created,
    /// The directory was already there, made earlier or by a concurrent process.
    AlreadyExists,
    /// Any other failure: permission denied, disk full, ...
    Failed,
}

/// A directory creation counts as done unless it failed for a reason other than
/// the directory already existing.
pub open spec fn creation_ok(o: DirCreation) -> bool {
    !(o is Failed)
}

/// Whether the output directory may be used after the creation attempt `o`.
pub fn creation_succeeded(o: DirCreation) -> (r: bool)
    ensures
        r == creation_ok(o),
{
    match o {
        DirCreation::Failed => false,
        _ => true,
    }
}

/// The outcome of resolving an output location: the path of the file in the canonical
/// directory `dir`, unless the directory could not be created.
pub open spec fn resolved_location(
    o: DirCreation,
    dir: Seq<char>,
    input_id: Option<Seq<char>>,
    filename: Seq<char>,
) -> Option<Seq<char>> {
    if creation_ok(o) {
        Some(join_path(dir, output_file_name(input_id, filename)))
    } else {
        None
    }
}

/// Resolves an output location once the parameter directory has been created (outcome `o`)
/// and canonicalised (`dir`): `None` exactly when the creation failed.
pub fn resolve_location(o: DirCreation, dir: &str, input_id: Option<&str>, filename: &str) -> (r:
    Option<String>)
    ensures
        r is Some <==> creation_ok(o),
        r is Some ==> resolved_location(o, dir@, opt_view(input_id), filename@) == Some(
            r->0@,
        ),
{
    if creation_succeeded(o) {
        Some(output_path(dir, input_id, filename))
    } else {
        None
    }
}

/// Resolving an output location twice with the same arguments never fails the second time:
/// once the directory exists, a repeated creation reports `Created` or `AlreadyExists`, both
/// accepted, and both resolutions give the same path.
pub proof fn lemma_resolve_idempotent(
    first: DirCreation,
    second: DirCreation,
    dir: Seq<char>,
    input_id: Option<Seq<char>>,
    filename: Seq<char>,
)
    requires
        creation_ok(first),
        second == DirCreation::Created || second == DirCreation::AlreadyExists,
    ensures
        resolved_location(second, dir, input_id, filename) is Some,
        resolved_location(first, dir, input_id, filename) == resolved_location(
            second,
            dir,
            input_id,
            filename,
        ),
{
}

/// The parameter file is written only when no file is at its path yet.
pub open spec fn parameter_write_needed(exists: bool) -> bool {
    !exists
}

/// Whether the parameter file must be written, given whether a file is already at its path.
pub fn should_write_parameter_file(exists: bool) -> (r: bool)
    ensures
        r == parameter_write_needed(exists),
{
    !exists
}

/// The files (path to content) after writing the parameter file `content` at `path`.
pub open spec fn after_parameter_write(
    files: Map<Seq<char>, Seq<char>>,
    path: Seq<char>,
    content: Seq<char>,
) -> Map<Seq<char>, Seq<char>> {
    if parameter_write_needed(files.contains_key(path)) {
        files.insert(path, content)
    } else {
        files
    }
}

/// The parameter file is written once: a second write at the same path, with the same or
/// with other content, changes nothing, and the file keeps what was there first.
pub proof fn lemma_parameter_file_write_once(
    files: Map<Seq<char>, Seq<char>>,
    path: Seq<char>,
    first: Seq<char>,
    second: Seq<char>,
)
    ensures
        after_parameter_write(after_parameter_write(files, path, first), path, second)
            == after_parameter_write(files, path, first),
        after_parameter_write(after_parameter_write(files, path, first), path, second)[path] == (
        if files.contains_key(path) {
            files[path]
        } else {
            first
        }),
{
}

} // verus!
