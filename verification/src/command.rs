//! Errors, process requests and the process runner interface.

use vstd::prelude::*;

use crate::text::{chars_of, push_char, push_signed_decimal, signed_decimal};

verus! {

/// A failure reported to the user, with the process exit status it maps to.
#[derive(Debug, PartialEq, Eq)]
pub struct ToolError {
    message: String,
    exit_code: u8,
}

impl Clone for ToolError {
    fn clone(&self) -> (r: Self)
        ensures
            r.msg() == self.msg(),
            r.code() == self.code(),
    {
        proof {
            use_type_invariant(self);
        }
        ToolError { message: self.message.clone(), exit_code: self.exit_code }
    }
}

pub type ToolResult<T> = Result<T, ToolError>;

impl ToolError {
    /// Every failure maps to exit status 1, or 2 for invalid usage.
    #[verifier::type_invariant]
    spec fn known_exit_code(self) -> bool {
        self.exit_code == 1 || self.exit_code == 2
    }

    /// The user-facing message.
    pub closed spec fn msg(&self) -> Seq<char> {
        self.message@
    }

    /// The process exit status.
    pub closed spec fn code(&self) -> u8 {
        self.exit_code
    }

    /// A failure with exit status 1.
    pub fn new(message: String) -> (e: Self)
        ensures
            e.msg() == message@,
            e.code() == 1,
    {
        ToolError { message, exit_code: 1 }
    }

    /// An invalid-usage failure with exit status 2.
    pub fn usage(message: String) -> (e: Self)
        ensures
            e.msg() == message@,
            e.code() == 2,
    {
        ToolError { message, exit_code: 2 }
    }

    /// The exit status: 1, or 2 for invalid usage.
    pub fn exit_code(&self) -> (c: u8)
        ensures
            c == self.code(),
            c == 1 || c == 2,
    {
        proof {
            use_type_invariant(self);
        }
        self.exit_code
    }

    /// The user-facing message (what `Display` shows).
    pub fn message(&self) -> (m: String)
        ensures
            m@ == self.msg(),
    {
        self.message.clone()
    }
}

/// Whether `r` is the failure with exit status 1 and message `m`.
pub open spec fn fails_with<T>(r: ToolResult<T>, m: Seq<char>) -> bool {
    r matches Err(e) && e.msg() == m && e.code() == 1
}

/// One process invocation: program, argument vector, working directory and
/// extra environment. `sensitive` hides arguments and output; `mutating`
/// marks requests that a dry run never executes.
#[derive(Debug, Clone, PartialEq, Eq)]
pub struct CommandRequest {
    pub program: String,
    pub args: Vec<String>,
    pub cwd: Option<String>,
    pub env: Vec<(String, String)>,
    pub sensitive: bool,
    pub mutating: bool,
}

/// Characters shown unquoted in a displayed argument.
pub open spec fn display_safe(c: char) -> bool {
    ('a' <= c && c <= 'z') || ('A' <= c && c <= 'Z') || ('0' <= c && c <= '9') || c == '.' || c
        == '_' || c == '/' || c == '-'
}

/// `a` with every single quote written as `'\''`.
pub open spec fn escape_quotes(a: Seq<char>) -> Seq<char>
    decreases a.len(),
{
    if a.len() == 0 {
        Seq::empty()
    } else {
        escape_quotes(a.drop_last()) + (if a.last() == '\'' {
            seq!['\'', '\\', '\'', '\'']
        } else {
            seq![a.last()]
        })
    }
}

/// An argument as shown to the user: unchanged when every character is safe,
/// otherwise single-quoted for a POSIX shell.
pub open spec fn quote_for_display(a: Seq<char>) -> Seq<char> {
    if forall|i: int| 0 <= i < a.len() ==> display_safe(#[trigger] a[i]) {
        a
    } else {
        seq!['\''] + escape_quotes(a) + seq!['\'']
    }
}

/// The quoted arguments joined by single spaces.
pub open spec fn join_quoted(args: Seq<Seq<char>>) -> Seq<char>
    decreases args.len(),
{
    if args.len() == 0 {
        Seq::empty()
    } else if args.len() == 1 {
        quote_for_display(args[0])
    } else {
        join_quoted(args.drop_last()) + seq![' '] + quote_for_display(args.last())
    }
}

/// The views of a sequence of strings.
pub open spec fn arg_views(args: Seq<String>) -> Seq<Seq<char>> {
    Seq::new(args.len(), |i: int| args[i]@)
}

/// How a request is shown in messages: sensitive requests show only the
/// program name.
pub open spec fn display_of(program: Seq<char>, args: Seq<Seq<char>>, sensitive: bool) -> Seq<char> {
    if sensitive {
        program + " [sensitive command]"@
    } else {
        let joined = join_quoted(args);
        if joined.len() == 0 {
            program
        } else {
            program + seq![' '] + joined
        }
    }
}

/// A sensitive request is shown the same whatever its arguments: by its
/// program name alone.
pub proof fn lemma_sensitive_display_hides_arguments(program: Seq<char>, a: Seq<Seq<char>>, b: Seq<Seq<char>>)
    ensures
        display_of(program, a, true) == display_of(program, b, true),
        display_of(program, a, true) == program + " [sensitive command]"@,
{
}

fn is_display_safe(c: char) -> (b: bool)
    ensures
        b == display_safe(c),
{
    ('a' <= c && c <= 'z') || ('A' <= c && c <= 'Z') || ('0' <= c && c <= '9') || c == '.' || c
        == '_' || c == '/' || c == '-'
}

fn shell_quote_for_display(argument: &str) -> (out: String)
    ensures
        out@ == quote_for_display(argument@),
{
    let cs = chars_of(argument);
    let mut all_safe = true;
    let mut i: usize = 0;
    while i < cs.len()
        invariant
            i <= cs@.len(),
            all_safe == (forall|k: int| 0 <= k < i ==> display_safe(#[trigger] cs@[k])),
        decreases cs@.len() - i,
    {
        if !is_display_safe(cs[i]) {
            all_safe = false;
        }
        i = i + 1;
    }
    let mut out = String::new();
    if all_safe {
        let mut j: usize = 0;
        while j < cs.len()
            invariant
                j <= cs@.len(),
                out@ == cs@.take(j as int),
            decreases cs@.len() - j,
        {
            push_char(&mut out, cs[j]);
            assert(cs@.take(j as int).push(cs@[j as int]) =~= cs@.take(j + 1));
            j = j + 1;
        }
        assert(cs@.take(cs@.len() as int) =~= cs@);
        return out;
    }
    push_char(&mut out, '\'');
    let mut j: usize = 0;
    while j < cs.len()
        invariant
            j <= cs@.len(),
            out@ == seq!['\''] + escape_quotes(cs@.take(j as int)),
        decreases cs@.len() - j,
    {
        let c = cs[j];
        assert(cs@.take(j + 1).drop_last() =~= cs@.take(j as int));
        if c == '\'' {
            push_char(&mut out, '\'');
            push_char(&mut out, '\\');
            push_char(&mut out, '\'');
            push_char(&mut out, '\'');
        } else {
            push_char(&mut out, c);
        }
        assert(out@ =~= seq!['\''] + escape_quotes(cs@.take(j + 1)));
        j = j + 1;
    }
    assert(cs@.take(cs@.len() as int) =~= cs@);
    push_char(&mut out, '\'');
    out
}

impl CommandRequest {
    /// The request as shown in messages.
    pub open spec fn shown(&self) -> Seq<char> {
        display_of(self.program@, arg_views(self.args@), self.sensitive)
    }

    /// A plain request: no working directory, no extra environment, neither
    /// sensitive nor mutating.
    pub fn new(program: &str, args: Vec<String>) -> (r: Self)
        ensures
            r.program@ == program@,
            r.args@ == args@,
            r.cwd is None,
            r.env@.len() == 0,
            !r.sensitive,
            !r.mutating,
    {
        CommandRequest {
            program: program.to_owned(),
            args,
            cwd: None,
            env: Vec::new(),
            sensitive: false,
            mutating: false,
        }
    }

    /// The same request run in `cwd`.
    pub fn cwd(self, cwd: &str) -> (r: Self)
        ensures
            r.cwd matches Some(c) && c@ == cwd@,
            r.program == self.program,
            r.args == self.args,
            r.env == self.env,
            r.sensitive == self.sensitive,
            r.mutating == self.mutating,
    {
        CommandRequest { cwd: Some(cwd.to_owned()), ..self }
    }

    /// The same request with one more environment variable.
    pub fn env(self, name: &str, value: &str) -> (r: Self)
        ensures
            r.env@.len() == self.env@.len() + 1,
            forall|i: int| 0 <= i < self.env@.len() ==> r.env@[i] == self.env@[i],
            r.env@.last().0@ == name@,
            r.env@.last().1@ == value@,
            r.program == self.program,
            r.args == self.args,
            r.cwd == self.cwd,
            r.sensitive == self.sensitive,
            r.mutating == self.mutating,
    {
        let mut r = self;
        r.env.push((name.to_owned(), value.to_owned()));
        r
    }

    /// The same request, marked as changing state.
    pub fn mutating(self) -> (r: Self)
        ensures
            r.mutating,
            r.program == self.program,
            r.args == self.args,
            r.cwd == self.cwd,
            r.env == self.env,
            r.sensitive == self.sensitive,
    {
        CommandRequest { mutating: true, ..self }
    }

    /// The same request, marked as sensitive.
    pub fn sensitive(self) -> (r: Self)
        ensures
            r.sensitive,
            r.program == self.program,
            r.args == self.args,
            r.cwd == self.cwd,
            r.env == self.env,
            r.mutating == self.mutating,
    {
        CommandRequest { sensitive: true, ..self }
    }

    /// The request as shown to the user; a sensitive request never shows its
    /// arguments.
    pub fn display(&self) -> (out: String)
        ensures
            out@ == self.shown(),
    {
        if self.sensitive {
            let mut out = self.program.clone();
            out.append(" [sensitive command]");
            return out;
        }
        let mut joined = String::new();
        let mut i: usize = 0;
        while i < self.args.len()
            invariant
                i <= self.args@.len(),
                joined@ == join_quoted(arg_views(self.args@).take(i as int)),
            decreases self.args@.len() - i,
        {
            let ghost prev = arg_views(self.args@).take(i as int);
            let ghost next = arg_views(self.args@).take(i + 1);
            assert(next.drop_last() =~= prev);
            let q = shell_quote_for_display(self.args[i].as_str());
            if i > 0 {
                push_char(&mut joined, ' ');
            }
            joined.append(q.as_str());
            i = i + 1;
        }
        assert(arg_views(self.args@).take(self.args@.len() as int) =~= arg_views(self.args@));
        if joined.as_str().is_empty() {
            self.program.clone()
        } else {
            let mut out = self.program.clone();
            push_char(&mut out, ' ');
            out.append(joined.as_str());
            out
        }
    }
}

/// What a finished process reported.
#[derive(Debug, Clone, PartialEq, Eq)]
pub struct CommandOutput {
    pub status: i32,
    pub stdout: String,
    pub stderr: String,
}

impl CommandOutput {
    pub fn success(&self) -> (b: bool)
        ensures
            b == (self.status == 0),
    {
        self.status == 0
    }

    /// The successful, empty output that a skipped dry-run request reports.
    pub fn dry_run() -> (o: Self)
        ensures
            o.status == 0,
            o.stdout@.len() == 0,
            o.stderr@.len() == 0,
    {
        CommandOutput { status: 0, stdout: String::new(), stderr: String::new() }
    }
}

/// Runs process requests. The library decides what to run and how to read
/// the outcome; implementations decide how (a real process, a recording fake).
pub trait CommandRunner {
    fn run(&mut self, request: &CommandRequest) -> ToolResult<CommandOutput>;
}

/// A runner together with the record of every request the library handed
/// it, each with the answer it gave, in order. The library runs commands
/// only through a recorder, so its contracts can say which requests were
/// made.
pub struct Recorder<R> {
    inner: R,
    sent: Ghost<Seq<(CommandRequest, ToolResult<CommandOutput>)>>,
}

impl<R: CommandRunner> Recorder<R> {
    /// A recorder that has handed over nothing yet.
    pub fn new(inner: R) -> (r: Self)
        ensures
            r.sent() == Seq::<(CommandRequest, ToolResult<CommandOutput>)>::empty(),
    {
        Recorder { inner, sent: Ghost(Seq::empty()) }
    }

    /// The runner the requests are handed to.
    pub closed spec fn runner(&self) -> R {
        self.inner
    }

    /// The runner, to read what it did.
    pub fn inner(&self) -> (r: &R)
        ensures
            *r == self.runner(),
    {
        &self.inner
    }

    /// The requests handed over so far, each with its answer.
    pub closed spec fn sent(&self) -> Seq<(CommandRequest, ToolResult<CommandOutput>)> {
        self.sent@
    }

    /// The runner itself, for an outside inspection whose requests are not
    /// recorded; the record is left as it is.
    pub fn inner_mut(&mut self) -> (r: &mut R)
        ensures
            *r == old(self).runner(),
            final(self).sent() == old(self).sent(),
            final(self).runner() == *final(r),
    {
        &mut self.inner
    }

    /// Hands `request` to the runner and records it with the answer.
    pub fn run(&mut self, request: &CommandRequest) -> (r: ToolResult<CommandOutput>)
        ensures
            final(self).sent() == old(self).sent().push((*request, r)),
    {
        let r = self.inner.run(request);
        self.sent = Ghost(self.sent@.push((*request, r)));
        r
    }
}

/// Whether `after` extends `before` with requests that change nothing.
pub open spec fn only_reads(
    before: Seq<(CommandRequest, ToolResult<CommandOutput>)>,
    after: Seq<(CommandRequest, ToolResult<CommandOutput>)>,
) -> bool {
    &&& before.len() <= after.len()
    &&& forall|i: int| 0 <= i < before.len() ==> #[trigger] after[i] == before[i]
    &&& forall|i: int| before.len() <= i < after.len() ==> !(#[trigger] after[i]).0.mutating
}

/// Whether `after` keeps the requests of `before` and perhaps adds more.
pub open spec fn extends(
    before: Seq<(CommandRequest, ToolResult<CommandOutput>)>,
    after: Seq<(CommandRequest, ToolResult<CommandOutput>)>,
) -> bool {
    &&& before.len() <= after.len()
    &&& forall|i: int| 0 <= i < before.len() ==> #[trigger] after[i] == before[i]
}

/// Whether `after` is `before` with one more request.
pub open spec fn one_more(
    before: Seq<(CommandRequest, ToolResult<CommandOutput>)>,
    after: Seq<(CommandRequest, ToolResult<CommandOutput>)>,
) -> bool {
    &&& after.len() == before.len() + 1
    &&& forall|i: int| 0 <= i < before.len() ==> #[trigger] after[i] == before[i]
}

/// The result of a request whose answer `outcome` reads: the runner's own
/// failure as it is, otherwise `Ok` exactly for exit status 0.
pub open spec fn answered<T>(answer: ToolResult<CommandOutput>, r: ToolResult<T>) -> bool {
    match answer {
        Err(e) => r matches Err(x) && x == e,
        Ok(o) => (r is Ok <==> o.status == 0),
    }
}

/// The policy of the process runner: in a dry run, mutating requests are
/// answered without being executed.
#[derive(Debug, Default)]
pub struct RealCommandRunner {
    pub dry_run: bool,
}

impl RealCommandRunner {
    pub fn new(dry_run: bool) -> (r: Self)
        ensures
            r.dry_run == dry_run,
    {
        RealCommandRunner { dry_run }
    }

    /// Whether `request` is answered with `CommandOutput::dry_run()` instead
    /// of being executed.
    pub fn skips(&self, request: &CommandRequest) -> (b: bool)
        ensures
            b == (self.dry_run && request.mutating),
    {
        self.dry_run && request.mutating
    }

    /// The failure reported when a process cannot be started.
    pub fn start_error(request: &CommandRequest, error: &str) -> (e: ToolError)
        ensures
            e.code() == 1,
            e.msg() == "could not run "@ + request.shown() + (match request.cwd {
                Some(c) => " in "@ + c@,
                None => Seq::empty(),
            }) + ": "@ + error@,
    {
        let mut m = String::new();
        m.append("could not run ");
        let shown = request.display();
        m.append(shown.as_str());
        match &request.cwd {
            Some(c) => {
                m.append(" in ");
                m.append(c.as_str());
            },
            None => {},
        }
        m.append(": ");
        m.append(error);
        ToolError::new(m)
    }

    /// The exit status reported for a process that ended without one.
    /// What a finished process reports: its exit status (1 when it has
    /// none), and its output unless the request is sensitive, whose output
    /// is never kept.
    pub fn finished(request: &CommandRequest, code: Option<i32>, stdout: String, stderr: String) -> (o: CommandOutput)
        ensures
            o.status == match code {
                Some(c) => c,
                None => 1,
            },
            request.sensitive ==> o.stdout@.len() == 0 && o.stderr@.len() == 0,
            !request.sensitive ==> o.stdout@ == stdout@ && o.stderr@ == stderr@,
    {
        let status = Self::exit_status(code);
        if request.sensitive {
            CommandOutput { status, stdout: String::new(), stderr: String::new() }
        } else {
            CommandOutput { status, stdout, stderr }
        }
    }

    pub fn exit_status(code: Option<i32>) -> (s: i32)
        ensures
            s == match code {
                Some(c) => c,
                None => 1,
            },
    {
        match code {
            Some(c) => c,
            None => 1,
        }
    }
}

/// Appends the decimal form of a process status.
pub fn push_status(s: &mut String, status: i32)
    ensures
        final(s)@ == old(s)@ + signed_decimal(status as int),
{
    push_signed_decimal(s, status as i64);
}

} // verus!
