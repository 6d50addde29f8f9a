//! Job executor: the shell a job runs under, the command line it gets and
//! the bounded capture of its output. Spawning the process and waiting for
//! it are left to the caller.

use crate::config::job::Job;
use crate::config::settings::{default_shell, default_shell_args};
use crate::text::{copy_strings, string_views};
use vstd::prelude::*;

verus! {

/// Job executor responsible for running commands
#[derive(Debug)]
pub struct JobExecutor {
    /// Default shell to use
    pub shell: String,
    /// Shell arguments
    pub shell_args: Vec<String>,
}

/// The shell and arguments a job runs with: the job's own shell with `-c`,
/// or the executor's shell and arguments.
pub open spec fn shell_for(e: JobExecutor, job: Job) -> (Seq<char>, Seq<Seq<char>>) {
    match job.shell {
        Some(s) => (s@, seq!["-c"@]),
        None => (e.shell@, string_views(e.shell_args@)),
    }
}

/// The bytes kept of a stream after reading `chunk`: nothing more once
/// `max` bytes are kept, otherwise as much of the chunk as fits.
pub open spec fn capped(kept: Seq<u8>, chunk: Seq<u8>, max: nat) -> Seq<u8> {
    if kept.len() < max {
        let room = (max - kept.len()) as int;
        kept + chunk.take(if chunk.len() < room {
            chunk.len() as int
        } else {
            room
        })
    } else {
        kept
    }
}

/// Captured output never grows past the limit, and what was kept stays.
pub proof fn law_capture_bounded(kept: Seq<u8>, chunk: Seq<u8>, max: nat)
    ensures
        kept.len() <= max ==> capped(kept, chunk, max).len() <= max,
        capped(kept, chunk, max).len() >= kept.len(),
        capped(kept, chunk, max).take(kept.len() as int) == kept,
        kept.len() + chunk.len() <= max ==> capped(kept, chunk, max) == kept + chunk,
{
    if kept.len() < max {
        let room = (max - kept.len()) as int;
        let n = if chunk.len() < room { chunk.len() as int } else { room };
        assert((kept + chunk.take(n)).take(kept.len() as int) =~= kept);
        if kept.len() + chunk.len() <= max {
            assert(chunk.take(chunk.len() as int) =~= chunk);
        }
    } else {
        assert(kept.take(kept.len() as int) =~= kept);
        if kept.len() + chunk.len() <= max {
            assert(chunk.len() == 0);
            assert(kept + chunk =~= kept);
        }
    }
}

/// The text `String::from_utf8_lossy` makes of bytes: each byte sequence
/// that is not UTF-8 becomes U+FFFD.
pub uninterp spec fn utf8_lossy(bytes: Seq<u8>) -> Seq<char>;

/// Bytes that are all ASCII.
pub open spec fn all_ascii(bytes: Seq<u8>) -> bool {
    forall|i: int| 0 <= i < bytes.len() ==> #[trigger] bytes[i] < 128
}

/// `String::from_utf8_lossy`, made owned. Claimed: the text is a function
/// of the bytes, and bytes that are valid UTF-8 (ASCII in particular) are
/// kept as they are, each ASCII byte one character.
#[verifier::external_body]
fn lossy_text(bytes: &[u8]) -> (r: String)
    ensures
        r@ == utf8_lossy(bytes@),
        all_ascii(bytes@) ==> r@ == bytes@.map_values(|b: u8| b as char),
{
    String::from_utf8_lossy(bytes).into_owned()
}

impl JobExecutor {
    /// The text of captured output: its bytes read as UTF-8, each sequence
    /// that is not UTF-8 replaced by U+FFFD. ASCII output keeps its length,
    /// so it stays within the job's limit as its bytes do.
    pub fn output_text(kept: &[u8]) -> (r: String)
        ensures
            r@ == utf8_lossy(kept@),
            all_ascii(kept@) ==> r@ == kept@.map_values(|b: u8| b as char),
            all_ascii(kept@) ==> r@.len() == kept@.len(),
    {
        lossy_text(kept)
    }

    /// Create a new job executor
    pub fn new(shell: String, shell_args: Vec<String>) -> (r: JobExecutor)
        ensures
            r.shell == shell,
            r.shell_args == shell_args,
    {
        JobExecutor { shell, shell_args }
    }

    /// Update shell settings
    pub fn update_shell(&mut self, shell: String, shell_args: Vec<String>)
        ensures
            final(self).shell == shell,
            final(self).shell_args == shell_args,
    {
        self.shell = shell;
        self.shell_args = shell_args;
    }

    /// Get shell and args for a job
    pub fn get_shell(&self, job: &Job) -> (r: (String, Vec<String>))
        ensures
            (r.0@, string_views(r.1@)) == shell_for(*self, *job),
    {
        match &job.shell {
            Some(shell) => {
                let mut args: Vec<String> = Vec::new();
                args.push(String::from_str("-c"));
                assert(string_views(args@) =~= seq!["-c"@]);
                (shell.clone(), args)
            },
            None => (self.shell.clone(), copy_strings(&self.shell_args)),
        }
    }

    /// The program and arguments that run a job: its shell, the shell's
    /// arguments, then the job's command.
    pub fn command_line(&self, job: &Job) -> (r: (String, Vec<String>))
        ensures
            r.0@ == shell_for(*self, *job).0,
            string_views(r.1@) == shell_for(*self, *job).1.push(job.command@),
    {
        let (shell, mut args) = self.get_shell(job);
        let ghost before = args@;
        args.push(job.command.clone());
        assert(string_views(args@) =~= string_views(before).push(job.command@));
        (shell, args)
    }

    /// Keeps the next chunk read from a job's output, up to `max` bytes in
    /// all.
    pub fn capture_chunk(kept: &mut Vec<u8>, chunk: &[u8], max: usize)
        ensures
            final(kept)@ == capped(old(kept)@, chunk@, max as nat),
    {
        if kept.len() < max {
            let room = max - kept.len();
            let n = if chunk.len() < room {
                chunk.len()
            } else {
                room
            };
            let mut i: usize = 0;
            while i < n
                invariant
                    n <= chunk@.len(),
                    i <= n,
                    kept@ == old(kept)@ + chunk@.take(i as int),
                decreases n - i,
            {
                kept.push(chunk[i]);
                i = i + 1;
                assert(kept@ == old(kept)@ + chunk@.take(i as int));
            }
        }
    }

    /// The exit code of a finished process: its code, or -1 when it was
    /// ended by a signal.
    pub fn exit_code(code: Option<i32>) -> (r: i32)
        ensures
            r == match code {
                Some(c) => c,
                None => -1i32,
            },
    {
        match code {
            Some(c) => c,
            None => -1,
        }
    }
}

/// The executor's default shell: `/bin/sh -c`.
pub open spec fn is_default_executor(e: JobExecutor) -> bool {
    e.shell@ == "/bin/sh"@ && string_views(e.shell_args@) == seq!["-c"@]
}

impl Default for JobExecutor {
    fn default() -> (r: JobExecutor)
        ensures
            is_default_executor(r),
    {
        let args = default_shell_args();
        assert(string_views(args@) =~= seq!["-c"@]);
        JobExecutor::new(default_shell(), args)
    }
}

} // verus!
