//! The remote command line that receives an uploaded payload, and the exit
//! code carried by a remote status.

use vstd::prelude::*;

verus! {

/// What `std::path::Path::file_name` gives for a path, as text: its final
/// component, or nothing when the path ends in `..` or is a root or empty.
pub uninterp spec fn path_file_name(p: Seq<char>) -> Option<Seq<char>>;

/// Relies on `std::path::Path::file_name` (with `OsStr::to_str`, which cannot
/// fail on a name taken from a `&str`): the final component of the path.
#[verifier::external_body]
fn file_name_of(path: &str) -> (r: Option<&str>)
    ensures
        r is Some ==> path_file_name(path@) == Some(r->0@),
        r is None ==> path_file_name(path@) is None,
{
    std::path::Path::new(path).file_name().and_then(|n| n.to_str())
}

/// Shell script that creates the destination directory, enters it and writes
/// standard input into a file called `name`.
pub open spec fn upload_script(dst: Seq<char>, name: Seq<char>) -> Seq<char> {
    "mkdir -p "@ + dst + " && cd "@ + dst + " && cat > "@ + name
}

/// Argument vector that runs `upload_script` through `sh -c`.
pub open spec fn is_upload_command(r: Seq<String>, dst: Seq<char>, name: Seq<char>) -> bool {
    &&& r.len() == 3
    &&& r[0]@ == "sh"@
    &&& r[1]@ == "-c"@
    &&& r[2]@ == upload_script(dst, name)
}

/// Why an upload could not be set up.
#[derive(Clone, Copy, Debug, PartialEq, Eq, Structural)]
pub enum CommandError {
    /// The local path names no file (it is empty, a root, or ends in `..`).
    NoFileName,
}

/// The remote command that stores standard input as `dst/name`.
pub fn upload_command(dst: &str, name: &str) -> (r: Vec<String>)
    ensures
        is_upload_command(r@, dst@, name@),
{
    let mut script = String::from_str("mkdir -p ");
    script.append(dst);
    script.append(" && cd ");
    script.append(dst);
    script.append(" && cat > ");
    script.append(name);
    let mut argv: Vec<String> = Vec::new();
    argv.push(String::from_str("sh"));
    argv.push(String::from_str("-c"));
    argv.push(script);
    argv
}

/// The remote command that stores standard input under `dst`, named after the
/// final component of the local path `src_path`.
pub fn upload_command_for(src_path: &str, dst: &str) -> (r: Result<Vec<String>, CommandError>)
    ensures
        r is Err <==> path_file_name(src_path@) is None,
        r is Err ==> r == Err::<Vec<String>, CommandError>(CommandError::NoFileName),
        r is Ok ==> is_upload_command(r->Ok_0@, dst@, path_file_name(src_path@)->0),
{
    match file_name_of(src_path) {
        Some(name) => Ok(upload_command(dst, name)),
        None => Err(CommandError::NoFileName),
    }
}

pub open spec fn is_digit(c: char) -> bool {
    '0' <= c <= '9'
}

/// Value of a string of decimal digits.
pub open spec fn digits_value(s: Seq<char>) -> nat
    decreases s.len(),
{
    if s.len() == 0 {
        0
    } else {
        digits_value(s.drop_last()) * 10 + (s.last() as nat - '0' as nat) as nat
    }
}

/// A well-formed exit code: one or more decimal digits whose value fits in
/// a `u32`.
pub open spec fn is_exit_code_text(s: Seq<char>) -> bool {
    &&& s.len() > 0
    &&& forall|i: int| 0 <= i < s.len() ==> is_digit(#[trigger] s[i])
    &&& digits_value(s) <= u32::MAX
}

proof fn lemma_prefix_value_le(s: Seq<char>, k: int)
    requires
        0 <= k <= s.len(),
        forall|i: int| 0 <= i < s.len() ==> is_digit(#[trigger] s[i]),
    ensures
        digits_value(s.subrange(0, k)) <= digits_value(s),
    decreases s.len() - k,
{
    if k < s.len() {
        let t = s.subrange(0, k + 1);
        assert(t.drop_last() == s.subrange(0, k));
        assert(is_digit(s[k]));
        lemma_prefix_value_le(s, k + 1);
    } else {
        assert(s.subrange(0, k) == s);
    }
}

/// Reads an exit code written in decimal, as a remote status carries it.
pub fn parse_exit_code(s: &str) -> (r: Option<u32>)
    ensures
        r is Some <==> is_exit_code_text(s@),
        r is Some ==> r->0 == digits_value(s@),
{
    let n = s.unicode_len();
    if n == 0 {
        return None;
    }
    let mut v: u32 = 0;
    let mut i: usize = 0;
    while i < n
        invariant
            n == s@.len(),
            0 <= i <= n,
            forall|j: int| 0 <= j < i ==> is_digit(#[trigger] s@[j]),
            v == digits_value(s@.subrange(0, i as int)),
        decreases n - i,
    {
        let c = s.get_char(i);
        if !('0' <= c && c <= '9') {
            return None;
        }
        let d = (c as u32) - ('0' as u32);
        let ghost pre = s@.subrange(0, i as int);
        assert(s@.subrange(0, i + 1).drop_last() == pre);
        if v > (u32::MAX - d) / 10 {
            proof {
                assert(v * 10 + d > u32::MAX) by (nonlinear_arith)
                    requires
                        v > (u32::MAX - d) / 10,
                        d <= 9,
                ;
                if is_exit_code_text(s@) {
                    lemma_prefix_value_le(s@, i + 1);
                }
            }
            return None;
        }
        v = v * 10 + d;
        i = i + 1;
    }
    assert(s@.subrange(0, n as int) == s@);
    Some(v)
}

} // verus!
