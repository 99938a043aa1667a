use crate::decimal::{decimal, is_digit, lemma_decimal_reads_back, push_decimal};
use crate::text::push_char;
use vstd::prelude::*;
use vstd::string::*;

verus! {

/// The four artifacts of one elevated invocation: the file that captures the
/// command's standard output, the one that captures its standard error, the
/// one that receives its exit code, and the wrapper script.
#[derive(Clone, Debug, PartialEq, Eq)]
pub struct SentinelFileSet {
    pub stdout: String,
    pub stderr: String,
    pub exit_code: String,
    pub script: String,
}

/// A `SentinelFileSet` as plain text.
pub struct SentinelFilesView {
    pub stdout: Seq<char>,
    pub stderr: Seq<char>,
    pub exit_code: Seq<char>,
    pub script: Seq<char>,
}

impl View for SentinelFileSet {
    type V = SentinelFilesView;

    open spec fn view(&self) -> SentinelFilesView {
        SentinelFilesView {
            stdout: self.stdout@,
            stderr: self.stderr@,
            exit_code: self.exit_code@,
            script: self.script@,
        }
    }
}

/// What tells the artifacts of one invocation from those of another: the
/// process id, an underscore, and the time of the invocation in
/// milliseconds after the epoch.
pub open spec fn discriminator(pid: u32, millis: u128) -> Seq<char> {
    decimal(pid as nat) + seq!['_'] + decimal(millis as nat)
}

/// The file names that the blocking collector uses for process `pid`,
/// called at `millis` milliseconds after the epoch.
pub open spec fn blocking_names(pid: u32, millis: u128) -> SentinelFilesView {
    let id = discriminator(pid, millis);
    SentinelFilesView {
        stdout: "elevated_cmd_stdout_"@ + id + ".txt"@,
        stderr: "elevated_cmd_stderr_"@ + id + ".txt"@,
        exit_code: "elevated_cmd_exitcode_"@ + id + ".txt"@,
        script: "elevated_cmd_wrapper_"@ + id + ".bat"@,
    }
}

/// The file names that the streaming monitor uses for process `pid`, started
/// `millis` milliseconds after the epoch.
pub open spec fn streaming_names(pid: u32, millis: u128) -> SentinelFilesView {
    let id = discriminator(pid, millis);
    SentinelFilesView {
        stdout: "elevated_stdout_"@ + id + ".txt"@,
        stderr: "elevated_stderr_"@ + id + ".txt"@,
        exit_code: "elevated_exit_"@ + id + ".txt"@,
        script: "elevated_wrapper_"@ + id + ".bat"@,
    }
}

/// Two numbers that are written alike are the same number.
pub proof fn lemma_decimal_tells_apart(a: nat, b: nat)
    requires
        decimal(a) == decimal(b),
    ensures
        a == b,
{
    lemma_decimal_reads_back(a);
    lemma_decimal_reads_back(b);
}

/// Two invocations with the same discriminator were made by the same
/// process at the same millisecond.
pub proof fn lemma_discriminator_tells_apart(
    pid: u32,
    millis: u128,
    other_pid: u32,
    other_millis: u128,
)
    requires
        discriminator(pid, millis) == discriminator(other_pid, other_millis),
    ensures
        pid == other_pid,
        millis == other_millis,
{
    let a = decimal(pid as nat);
    let b = decimal(other_pid as nat);
    let c = decimal(millis as nat);
    let d = decimal(other_millis as nat);
    lemma_decimal_reads_back(pid as nat);
    lemma_decimal_reads_back(other_pid as nat);
    let left = a + seq!['_'] + c;
    let right = b + seq!['_'] + d;
    assert(left == right);
    // The underscore is the first character that is no digit, so the two
    // process ids are equally long.
    if a.len() < b.len() {
        assert(left[a.len() as int] == '_');
        assert(right[a.len() as int] == b[a.len() as int]);
        assert(is_digit(b[a.len() as int]));
    }
    if b.len() < a.len() {
        assert(right[b.len() as int] == '_');
        assert(left[b.len() as int] == a[b.len() as int]);
        assert(is_digit(a[b.len() as int]));
    }
    assert(a =~= b) by {
        assert forall|k: int| 0 <= k < a.len() implies a[k] == b[k] by {
            assert(left[k] == a[k]);
            assert(right[k] == b[k]);
        }
    }
    assert(c =~= d) by {
        assert(left.len() == right.len());
        assert forall|k: int| 0 <= k < c.len() implies c[k] == d[k] by {
            assert(left[a.len() + 1 + k] == c[k]);
            assert(right[b.len() + 1 + k] == d[k]);
        }
    }
    lemma_decimal_tells_apart(pid as nat, other_pid as nat);
    lemma_decimal_tells_apart(millis as nat, other_millis as nat);
}

/// A file name made of the same role and extension around two
/// discriminators is the same name only where the discriminators are the
/// same.
pub proof fn lemma_name_keeps_discriminator(
    role: Seq<char>,
    id: Seq<char>,
    other_id: Seq<char>,
    extension: Seq<char>,
)
    requires
        role + id + extension == role + other_id + extension,
    ensures
        id == other_id,
{
    let left = role + id + extension;
    let right = role + other_id + extension;
    assert(left.len() == role.len() + id.len() + extension.len());
    assert(right.len() == role.len() + other_id.len() + extension.len());
    assert(id.len() == other_id.len());
    assert(id =~= other_id) by {
        assert forall|k: int| 0 <= k < id.len() implies id[k] == other_id[k] by {
            assert(left[role.len() + k] == id[k]);
            assert(right[role.len() + k] == other_id[k]);
        }
    }
}

/// Two invocations, blocking or streaming, share none of their four file
/// names unless they were made by the same process at the same
/// millisecond.
pub proof fn lemma_names_tell_invocations_apart(
    pid: u32,
    millis: u128,
    other_pid: u32,
    other_millis: u128,
)
    requires
        pid != other_pid || millis != other_millis,
    ensures
        ({
            let a = streaming_names(pid, millis);
            let b = streaming_names(other_pid, other_millis);
            a.stdout != b.stdout && a.stderr != b.stderr && a.exit_code != b.exit_code && a.script
                != b.script
        }),
        ({
            let a = blocking_names(pid, millis);
            let b = blocking_names(other_pid, other_millis);
            a.stdout != b.stdout && a.stderr != b.stderr && a.exit_code != b.exit_code && a.script
                != b.script
        }),
{
    let id = discriminator(pid, millis);
    let other_id = discriminator(other_pid, other_millis);
    if id == other_id {
        lemma_discriminator_tells_apart(pid, millis, other_pid, other_millis);
    }
    let a = streaming_names(pid, millis);
    let b = streaming_names(other_pid, other_millis);
    if a.stdout == b.stdout {
        lemma_name_keeps_discriminator("elevated_stdout_"@, id, other_id, ".txt"@);
    }
    if a.stderr == b.stderr {
        lemma_name_keeps_discriminator("elevated_stderr_"@, id, other_id, ".txt"@);
    }
    if a.exit_code == b.exit_code {
        lemma_name_keeps_discriminator("elevated_exit_"@, id, other_id, ".txt"@);
    }
    if a.script == b.script {
        lemma_name_keeps_discriminator("elevated_wrapper_"@, id, other_id, ".bat"@);
    }
    let c = blocking_names(pid, millis);
    let d = blocking_names(other_pid, other_millis);
    if c.stdout == d.stdout {
        lemma_name_keeps_discriminator("elevated_cmd_stdout_"@, id, other_id, ".txt"@);
    }
    if c.stderr == d.stderr {
        lemma_name_keeps_discriminator("elevated_cmd_stderr_"@, id, other_id, ".txt"@);
    }
    if c.exit_code == d.exit_code {
        lemma_name_keeps_discriminator("elevated_cmd_exitcode_"@, id, other_id, ".txt"@);
    }
    if c.script == d.script {
        lemma_name_keeps_discriminator("elevated_cmd_wrapper_"@, id, other_id, ".bat"@);
    }
}

/// The four names of a file set, in one list.
pub open spec fn names_of(files: SentinelFilesView) -> Seq<Seq<char>> {
    seq![files.stdout, files.stderr, files.exit_code, files.script]
}

/// Names for different roles are different names, whatever the invocations
/// they belong to: the role is spelled out at the start of the name.
pub proof fn lemma_roles_tell_files_apart(
    pid: u32,
    millis: u128,
    other_pid: u32,
    other_millis: u128,
)
    ensures
        forall|i: int, j: int|
            0 <= i < 4 && 0 <= j < 4 && i != j ==> #[trigger] names_of(
                streaming_names(pid, millis),
            )[i] != #[trigger] names_of(streaming_names(other_pid, other_millis))[j],
        forall|i: int, j: int|
            0 <= i < 4 && 0 <= j < 4 && i != j ==> #[trigger] names_of(
                blocking_names(pid, millis),
            )[i] != #[trigger] names_of(blocking_names(other_pid, other_millis))[j],
{
    reveal_strlit("elevated_stdout_");
    reveal_strlit("elevated_stderr_");
    reveal_strlit("elevated_exit_");
    reveal_strlit("elevated_wrapper_");
    reveal_strlit("elevated_cmd_stdout_");
    reveal_strlit("elevated_cmd_stderr_");
    reveal_strlit("elevated_cmd_exitcode_");
    reveal_strlit("elevated_cmd_wrapper_");
    let a = streaming_names(pid, millis);
    let b = streaming_names(other_pid, other_millis);
    // The roles part ways at the tenth character, and the two output
    // streams at the thirteenth.
    assert(a.stdout[9] == 's' && a.stderr[9] == 's' && a.exit_code[9] == 'e' && a.script[9] == 'w');
    assert(b.stdout[9] == 's' && b.stderr[9] == 's' && b.exit_code[9] == 'e' && b.script[9] == 'w');
    assert(a.stdout[12] == 'o' && a.stderr[12] == 'e');
    assert(b.stdout[12] == 'o' && b.stderr[12] == 'e');
    let c = blocking_names(pid, millis);
    let d = blocking_names(other_pid, other_millis);
    // Here they part ways at the fourteenth character, and the two output
    // streams at the seventeenth.
    assert(c.stdout[13] == 's' && c.stderr[13] == 's' && c.exit_code[13] == 'e' && c.script[13]
        == 'w');
    assert(d.stdout[13] == 's' && d.stderr[13] == 's' && d.exit_code[13] == 'e' && d.script[13]
        == 'w');
    assert(c.stdout[16] == 'o' && c.stderr[16] == 'e');
    assert(d.stdout[16] == 'o' && d.stderr[16] == 'e');
}

/// No artifact of one invocation has the name of an artifact of another:
/// two invocations, both blocking or both streaming, that were not made by
/// the same process at the same millisecond have eight different file names
/// between them.
pub proof fn lemma_no_name_is_used_again(
    pid: u32,
    millis: u128,
    other_pid: u32,
    other_millis: u128,
)
    requires
        pid != other_pid || millis != other_millis,
    ensures
        forall|i: int, j: int|
            0 <= i < 4 && 0 <= j < 4 ==> #[trigger] names_of(streaming_names(pid, millis))[i]
                != #[trigger] names_of(streaming_names(other_pid, other_millis))[j],
        forall|i: int, j: int|
            0 <= i < 4 && 0 <= j < 4 ==> #[trigger] names_of(blocking_names(pid, millis))[i]
                != #[trigger] names_of(blocking_names(other_pid, other_millis))[j],
{
    lemma_names_tell_invocations_apart(pid, millis, other_pid, other_millis);
    lemma_roles_tell_files_apart(pid, millis, other_pid, other_millis);
}

/// `role`, the discriminator, and `extension`, in one file name.
fn artifact_name(role: &str, pid: u32, millis: u128, extension: &str) -> (name: String)
    ensures
        name@ == role@ + discriminator(pid, millis) + extension@,
{
    let mut name = role.to_owned();
    push_decimal(&mut name, pid as u128);
    push_char(&mut name, '_');
    push_decimal(&mut name, millis);
    name.append(extension);
    assert(name@ =~= role@ + discriminator(pid, millis) + extension@);
    name
}

impl SentinelFileSet {
    /// The file names for a blocking invocation made by process `pid` at
    /// `millis` milliseconds after the epoch.
    pub fn for_blocking(pid: u32, millis: u128) -> (files: SentinelFileSet)
        ensures
            files@ == blocking_names(pid, millis),
    {
        SentinelFileSet {
            stdout: artifact_name("elevated_cmd_stdout_", pid, millis, ".txt"),
            stderr: artifact_name("elevated_cmd_stderr_", pid, millis, ".txt"),
            exit_code: artifact_name("elevated_cmd_exitcode_", pid, millis, ".txt"),
            script: artifact_name("elevated_cmd_wrapper_", pid, millis, ".bat"),
        }
    }

    /// The file names for a streaming invocation made by process `pid` at
    /// `millis` milliseconds after the epoch.
    pub fn for_streaming(pid: u32, millis: u128) -> (files: SentinelFileSet)
        ensures
            files@ == streaming_names(pid, millis),
    {
        SentinelFileSet {
            stdout: artifact_name("elevated_stdout_", pid, millis, ".txt"),
            stderr: artifact_name("elevated_stderr_", pid, millis, ".txt"),
            exit_code: artifact_name("elevated_exit_", pid, millis, ".txt"),
            script: artifact_name("elevated_wrapper_", pid, millis, ".bat"),
        }
    }
}

} // verus!
