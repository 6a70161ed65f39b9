//! Outside processes: what is kept of their output, and what their end means.
use crate::digest;
use crate::error::{AppError, ErrorView};
use crate::text;
use vstd::prelude::*;

verus! {

broadcast use {vstd::string::group_string_axioms, vstd::seq::group_seq_axioms};

/// How much of an output stream is kept.
pub const MAX_CAPTURE_BYTES: usize = 1048576;

/// How much may be written to the input of a process.
pub const MAX_STDIN_BYTES: usize = 16777216;

/// What is known of an output stream: its first bytes, how long it was, and
/// the fingerprint of all of it.
#[derive(Debug, Clone, PartialEq, Eq)]
pub struct CapturedOutput {
    pub bytes: Vec<u8>,
    pub total_bytes: usize,
    pub sha256: String,
    pub truncated: bool,
}

/// How a process ended: with a code, or without one.
#[derive(Debug, Clone, Copy, PartialEq, Eq, Structural)]
pub struct ExitStatus {
    pub code: Option<i32>,
}

impl ExitStatus {
    /// It ended well.
    pub open spec fn well(self) -> bool {
        self.code == Some(0i32)
    }

    pub fn success(&self) -> (r: bool)
        ensures
            r == self.well(),
    {
        match self.code {
            Some(code) => code == 0,
            None => false,
        }
    }
}

#[derive(Debug, Clone, PartialEq, Eq)]
pub struct ProcessResult {
    pub status: ExitStatus,
    pub timed_out: bool,
    pub duration_ms: u128,
    pub stdout: CapturedOutput,
    pub stderr: CapturedOutput,
}

/// As much of a stream as is kept.
pub open spec fn kept(stream: Seq<u8>) -> Seq<u8> {
    if stream.len() <= MAX_CAPTURE_BYTES {
        stream
    } else {
        stream.take(MAX_CAPTURE_BYTES as int)
    }
}

/// A length, or the largest number where it is larger than that.
pub open spec fn counted(n: nat) -> nat {
    if n <= usize::MAX {
        n
    } else {
        usize::MAX as nat
    }
}

/// A stream while it is read.
#[derive(Debug, Clone, PartialEq, Eq)]
pub struct CaptureState {
    pub bytes: Vec<u8>,
    pub total_bytes: usize,
}

impl CaptureState {
    /// Exactly this stream was read.
    pub open spec fn read(self, stream: Seq<u8>) -> bool {
        &&& self.bytes@ == kept(stream)
        &&& self.total_bytes == counted(stream.len())
    }

    pub fn new() -> (r: Self)
        ensures
            r.read(Seq::empty()),
    {
        CaptureState { bytes: Vec::new(), total_bytes: 0 }
    }

    /// Read on.
    pub fn write(&mut self, buffer: &[u8])
        ensures
            forall|stream: Seq<u8>| #[trigger]
                old(self).read(stream) ==> final(self).read(stream + buffer@),
    {
        let ghost before = *self;
        self.total_bytes = if self.total_bytes > usize::MAX - buffer.len() {
            usize::MAX
        } else {
            self.total_bytes + buffer.len()
        };
        let have: usize = self.bytes.len();
        let remaining: usize = if have < MAX_CAPTURE_BYTES {
            MAX_CAPTURE_BYTES - have
        } else {
            0
        };
        let n: usize = if buffer.len() < remaining {
            buffer.len()
        } else {
            remaining
        };
        let mut i: usize = 0;
        assert(self.bytes@ =~= before.bytes@ + buffer@.take(0));
        while i < n
            invariant
                i <= n <= buffer@.len(),
                self.bytes@ == before.bytes@ + buffer@.take(i as int),
                self.total_bytes == counted((before.total_bytes + buffer@.len()) as nat),
            decreases n - i,
        {
            self.bytes.push(buffer[i]);
            assert(before.bytes@ + buffer@.take(i + 1) =~= (before.bytes@ + buffer@.take(
                i as int,
            )).push(buffer@[i as int]));
            i = i + 1;
        }
        assert forall|stream: Seq<u8>| #[trigger] before.read(stream) implies self.read(
            stream + buffer@,
        ) by {
            assert(self.bytes@ =~= kept(stream + buffer@));
        }
    }

    /// What is known of the stream, given the fingerprint of all of it.
    pub fn snapshot(self, sha256: String) -> (r: CapturedOutput)
        ensures
            r.bytes@ == self.bytes@,
            r.total_bytes == self.total_bytes,
            r.sha256@ == sha256@,
            r.truncated == (self.total_bytes > self.bytes@.len()),
    {
        let truncated = self.total_bytes > self.bytes.len();
        CapturedOutput { bytes: self.bytes, total_bytes: self.total_bytes, sha256, truncated }
    }
}

/// What is known of a stream that is all there.
pub fn drain_bounded(stream: &[u8]) -> (r: CapturedOutput)
    ensures
        r.bytes@ == kept(stream@),
        r.total_bytes == stream@.len(),
        r.sha256@ == digest::sha256_hex(stream@),
        r.truncated == (stream@.len() > MAX_CAPTURE_BYTES),
{
    let mut state = CaptureState::new();
    let n: usize = stream.len();
    state.write(stream);
    assert(n == stream@.len());
    assert(state.read(Seq::<u8>::empty() + stream@));
    assert(Seq::<u8>::empty() + stream@ =~= stream@);
    state.snapshot(digest::hash_bytes(stream))
}

/// How a stream is cut into pieces does not change what is known of it.
pub proof fn pieces_do_not_matter(a: CaptureState, b: CaptureState, stream: Seq<u8>)
    requires
        a.read(stream),
        b.read(stream),
    ensures
        a.bytes@ == b.bytes@,
        a.total_bytes == b.total_bytes,
        a.bytes@.len() <= MAX_CAPTURE_BYTES,
        stream.len() <= usize::MAX ==> (a.total_bytes > a.bytes@.len() <==> stream.len()
            > MAX_CAPTURE_BYTES),
{
}

/// Why an input is not written to a process.
pub open spec fn stdin_refusal(len: nat) -> Option<ErrorView> {
    if len > MAX_STDIN_BYTES {
        Some(
            ErrorView::Provider(
                "拒绝向外部进程写入超过 "@ + text::decimal(MAX_STDIN_BYTES as nat)
                    + " 字节的标准输入"@,
            ),
        )
    } else {
        None
    }
}

/// Whether an input of a length may be written to a process.
pub fn check_stdin(len: usize) -> (r: Result<(), AppError>)
    ensures
        match r {
            Ok(()) => stdin_refusal(len as nat) is None,
            Err(e) => stdin_refusal(len as nat) == Some(e@),
        },
{
    if len > MAX_STDIN_BYTES {
        let limit = text::decimal_text(MAX_STDIN_BYTES as u64);
        let mut line = "拒绝向外部进程写入超过 ".to_owned();
        line.append(limit.as_str());
        line.append(" 字节的标准输入");
        return Err(AppError::Provider(line));
    }
    Ok(())
}

/// Why the end of a process is an error: it is told differently before and
/// after its descendants are gone, or it came by time where that is not
/// looked for.
pub open spec fn end_refusal(
    consistent: bool,
    timed_out: bool,
    observe_timeout: bool,
    timeout_seconds: u64,
) -> Option<ErrorView> {
    if !consistent {
        Some(ErrorView::Provider("外部进程退出状态在进程树清理前后不一致"@))
    } else if timed_out && !observe_timeout {
        Some(
            ErrorView::Provider(
                "Provider 超时（"@ + text::decimal(timeout_seconds as nat)
                    + " 秒）并已终止完整进程树"@,
            ),
        )
    } else {
        None
    }
}

/// Whether the end of a process can be gone on with.
pub fn check_end(
    consistent: bool,
    timed_out: bool,
    observe_timeout: bool,
    timeout_seconds: u64,
) -> (r: Result<(), AppError>)
    ensures
        match r {
            Ok(()) => end_refusal(consistent, timed_out, observe_timeout, timeout_seconds) is None,
            Err(e) => end_refusal(consistent, timed_out, observe_timeout, timeout_seconds) == Some(
                e@,
            ),
        },
{
    if !consistent {
        return Err(
            AppError::Provider("外部进程退出状态在进程树清理前后不一致".to_owned()),
        );
    }
    if timed_out && !observe_timeout {
        let seconds = text::decimal_text(timeout_seconds);
        let mut line = "Provider 超时（".to_owned();
        line.append(seconds.as_str());
        line.append(" 秒）并已终止完整进程树");
        return Err(AppError::Provider(line));
    }
    Ok(())
}

/// A path as it is handed to a program: without the mark of a verbatim path.
pub open spec fn cli_path(path: Seq<char>) -> Seq<char> {
    match text::after_prefix(path, "\\\\?\\UNC\\"@) {
        Some(rest) => "\\\\"@ + rest,
        None => match text::after_prefix(path, "\\\\?\\"@) {
            Some(rest) => rest,
            None => path,
        },
    }
}

/// A path as it is handed to a program.
pub fn provider_cli_path(path: &str) -> (r: String)
    ensures
        r@ == cli_path(path@),
{
    match text::strip_prefix(path, "\\\\?\\UNC\\") {
        Some(rest) => {
            let mut out = "\\\\".to_owned();
            out.append(rest.as_str());
            out
        },
        None => match text::strip_prefix(path, "\\\\?\\") {
            Some(rest) => rest,
            None => path.to_owned(),
        },
    }
}

/// The arguments of a program: the script that it runs, if it runs one, and
/// then the arguments proper.
pub open spec fn argv_of(script: Option<Seq<char>>, arguments: Seq<Seq<char>>) -> Seq<Seq<char>> {
    match script {
        Some(script) => seq![cli_path(script)] + arguments,
        None => arguments,
    }
}

/// The arguments of a program.
pub fn argv(script: &Option<String>, arguments: &Vec<String>) -> (r: Vec<String>)
    ensures
        text::views(r@) == argv_of(
            match *script {
                Some(s) => Some(s@),
                None => None,
            },
            text::views(arguments@),
        ),
{
    match script {
        Some(script) => {
            let mut out: Vec<String> = Vec::new();
            out.push(provider_cli_path(script.as_str()));
            let mut more = text::clone_texts(arguments);
            out.append(&mut more);
            assert(text::views(out@) =~= seq![cli_path(script@)] + text::views(arguments@));
            out
        },
        None => text::clone_texts(arguments),
    }
}

/// A run that is over is taken exactly where its end is told consistently and it
/// did not run out of time, unless that is what is looked for; input is written
/// exactly where it is no longer than the limit.
pub proof fn only_ended_runs_are_taken(
    consistent: bool,
    timed_out: bool,
    observed: bool,
    seconds: u64,
    len: nat,
)
    ensures
        end_refusal(consistent, timed_out, observed, seconds) is None <==> consistent && (
        !timed_out || observed),
        stdin_refusal(len) is None <==> len <= 16777216,
{
}

/// Paths lose the prefix for long paths and nothing else: shares keep their two
/// backslashes, and any other path stays as it is.
pub proof fn long_paths_are_written_plainly(rest: Seq<char>, path: Seq<char>)
    ensures
        cli_path("\\\\?\\UNC\\"@ + rest) == "\\\\"@ + rest,
        !text::begins(rest, "UNC\\"@) ==> cli_path("\\\\?\\"@ + rest) == rest,
        !text::begins(path, "\\\\?\\"@) ==> cli_path(path) == path,
{
    reveal_strlit("\\\\?\\UNC\\");
    reveal_strlit("\\\\?\\");
    reveal_strlit("UNC\\");
    let share = "\\\\?\\UNC\\"@;
    let long = "\\\\?\\"@;
    let unc = "UNC\\"@;
    assert(share =~= long + unc);
    assert((share + rest).subrange(0, share.len() as int) =~= share);
    assert((share + rest).skip(share.len() as int) =~= rest);
    let plain = long + rest;
    assert(plain.subrange(0, long.len() as int) =~= long);
    assert(plain.skip(long.len() as int) =~= rest);
    if text::begins(plain, share) {
        assert(rest.subrange(0, unc.len() as int) =~= share.skip(long.len() as int)) by {
            assert forall|k: int| 0 <= k < unc.len() implies rest[k] == unc[k] by {
                assert(plain.subrange(0, share.len() as int)[long.len() + k] == share[long.len()
                    + k]);
            }
        }
        assert(share.skip(long.len() as int) =~= unc);
        assert(text::begins(rest, unc));
    }
    if text::begins(path, share) {
        assert(path.subrange(0, long.len() as int) =~= share.subrange(0, long.len() as int)) by {
            assert forall|k: int| 0 <= k < long.len() implies path[k] == share[k] by {
                assert(path.subrange(0, share.len() as int)[k] == share[k]);
            }
        }
        assert(share.subrange(0, long.len() as int) =~= long);
        assert(text::begins(path, long));
    }
}

/// A script stands before the arguments, and all arguments are handed on.
pub proof fn arguments_are_handed_on(script: Option<Seq<char>>, arguments: Seq<Seq<char>>)
    ensures
        script is None ==> argv_of(script, arguments) == arguments,
        script is Some ==> argv_of(script, arguments).len() == arguments.len() + 1 && argv_of(
            script,
            arguments,
        ).skip(1) == arguments && argv_of(script, arguments)[0] == cli_path(script->0),
{
    if script is Some {
        assert(argv_of(script, arguments).skip(1) =~= arguments);
    }
}

} // verus!
