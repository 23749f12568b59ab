//! The command protocol and its dispatcher: one block of model output is
//! classified into a typed command, and each command's outcome is normalised
//! into plain text that becomes the next turn's input.

use vstd::prelude::*;

verus! {

use vstd::string::StrSliceExecFns;
use vstd::string::StringExecFns;
use crate::text::{
    is_space_char, trim_start_spec, trim_end_spec, tokens_spec, join_spec, starts_with, ends_with,
    trim_start_str, trim_end_str, has_prefix, has_suffix, split_tokens, join_with_spaces, str_eq,
};

/// The keyword opening a shell-run command.
pub open spec fn run_kw() -> Seq<char> {
    seq!['R', 'U', 'N']
}

/// The keyword opening a terminal answer.
pub open spec fn final_kw() -> Seq<char> {
    seq!['F', 'I', 'N', 'A', 'L']
}

/// The opening fence of a guest-code block: three backticks, the language
/// tag, and the newline that ends the fence line.
pub open spec fn fence_open() -> Seq<char> {
    seq!['`', '`', '`', 'r', 'e', 'p', 'l', '\n']
}

/// The closing fence of a guest-code block.
pub open spec fn fence_close() -> Seq<char> {
    seq!['\n', '`', '`', '`']
}

/// Mathematical model of a parsed command.
pub enum SpecCommand {
    Run { program: Seq<char>, args: Seq<Seq<char>> },
    Final { message: Seq<char> },
    RunCode { source: Seq<char> },
    Invalid,
}

/// What one block of model output means, in fixed priority order with no
/// backtracking:
/// - after leading-whitespace trim, text starting with `RUN` is split on
///   whitespace; the token after the keyword token is the program, the rest
///   are its arguments. A missing program token is an invalid command, a
///   recoverable value rather than a crash;
/// - text starting with `FINAL` is a terminal answer whose remaining tokens
///   are rejoined with single spaces, collapsing any original run of
///   whitespace;
/// - text that (after trimming both ends) starts with the opening fence and
///   ends with the closing fence is guest code, its interior kept verbatim;
/// - anything else is invalid.
pub open spec fn parse_spec(input: Seq<char>) -> SpecCommand {
    let t = trim_start_spec(input);
    if starts_with(t, run_kw()) {
        if tokens_spec(t).len() >= 2 {
            SpecCommand::Run { program: tokens_spec(t)[1], args: tokens_spec(t).skip(2) }
        } else {
            SpecCommand::Invalid
        }
    } else if starts_with(t, final_kw()) {
        SpecCommand::Final { message: join_spec(tokens_spec(t).skip(1)) }
    } else {
        let w = trim_end_spec(t);
        if w.len() >= fence_open().len() + fence_close().len() && starts_with(w, fence_open())
            && ends_with(w, fence_close()) {
            SpecCommand::RunCode {
                source: w.subrange(
                    fence_open().len() as int,
                    w.len() - fence_close().len(),
                ),
            }
        } else {
            SpecCommand::Invalid
        }
    }
}

/// The program and ordered arguments of a shell-run command. Arguments are
/// whitespace-delimited with no quoting, so an argument holding whitespace
/// cannot be expressed.
pub struct RunArgs {
    pub program: String,
    pub args: Vec<String>,
}

/// A typed command, exactly one variant per parse, constructed fresh per
/// turn and never mutated.
pub enum Command {
    Run(RunArgs),
    Final(String),
    RunCode(String),
    InvalidCommand,
}

impl View for Command {
    type V = SpecCommand;

    open spec fn view(&self) -> SpecCommand {
        match self {
            Command::Run(ra) => SpecCommand::Run {
                program: ra.program@,
                args: ra.args.deep_view(),
            },
            Command::Final(message) => SpecCommand::Final { message: message@ },
            Command::RunCode(source) => SpecCommand::RunCode { source: source@ },
            Command::InvalidCommand => SpecCommand::Invalid,
        }
    }
}

impl Command {
    /// The shell-run payload, for that variant alone.
    pub fn get_run_command(&self) -> (r: Option<&RunArgs>)
        ensures
            match r {
                Some(ra) => self@ == (SpecCommand::Run {
                    program: ra.program@,
                    args: ra.args.deep_view(),
                }),
                None => !(self@ is Run),
            },
    {
        if let Command::Run(args) = self {
            Some(args)
        } else {
            None
        }
    }

    /// The terminal answer's message, for that variant alone.
    pub fn get_final_command(&self) -> (r: Option<String>)
        ensures
            match r {
                Some(m) => self@ == (SpecCommand::Final { message: m@ }),
                None => !(self@ is Final),
            },
    {
        if let Command::Final(message) = self {
            Some(message.clone())
        } else {
            None
        }
    }

    /// The guest source text, for that variant alone.
    pub fn get_code_to_run(&self) -> (r: Option<String>)
        ensures
            match r {
                Some(code) => self@ == (SpecCommand::RunCode { source: code@ }),
                None => !(self@ is RunCode),
            },
    {
        if let Command::RunCode(source) = self {
            Some(source.clone())
        } else {
            None
        }
    }

    /// Classify one block of model output. Pure: a function of its input
    /// alone, proved equal to [`parse_spec`].
    pub fn parse(input: &str) -> (r: Command)
        ensures
            r@ == parse_spec(input@),
    {
        proof {
            reveal_strlit("RUN");
            reveal_strlit("FINAL");
            reveal_strlit("```repl\n");
            reveal_strlit("\n```");
            assert("RUN"@ =~= run_kw());
            assert("FINAL"@ =~= final_kw());
            assert("```repl\n"@ =~= fence_open());
            assert("\n```"@ =~= fence_close());
        }
        let t = trim_start_str(input);
        if has_prefix(t, "RUN") {
            let toks = split_tokens(t);
            if toks.len() >= 2 {
                let program = toks[1].clone();
                let mut args: Vec<String> = Vec::new();
                let mut i: usize = 2;
                proof {
                    assert(args.deep_view() =~~= toks.deep_view().subrange(2, 2));
                }
                while i < toks.len()
                    invariant
                        2 <= i <= toks@.len(),
                        toks.deep_view() == tokens_spec(t@),
                        args.deep_view() == toks.deep_view().subrange(2, i as int),
                    decreases toks@.len() - i,
                {
                    let ghost prev = args.deep_view();
                    args.push(toks[i].clone());
                    proof {
                        assert(args.deep_view() =~~= prev.push(toks.deep_view()[i as int]));
                        assert(prev.push(toks.deep_view()[i as int]) =~~= toks.deep_view().subrange(
                            2,
                            i as int + 1,
                        ));
                    }
                    i += 1;
                }
                proof {
                    assert(toks.deep_view().subrange(2, toks@.len() as int) =~~= toks.deep_view()
                        .skip(2));
                }
                Command::Run(RunArgs { program, args })
            } else {
                Command::InvalidCommand
            }
        } else if has_prefix(t, "FINAL") {
            let toks = split_tokens(t);
            Command::Final(join_with_spaces(&toks, 1))
        } else {
            let w = trim_end_str(t);
            let n = w.unicode_len();
            if n >= 12 && has_prefix(w, "```repl\n") && has_suffix(w, "\n```") {
                let src = w.substring_char(8, n - 4);
                proof {
                    assert(fence_open().len() == 8);
                    assert(fence_close().len() == 4);
                    assert(w@.subrange(8, n - 4) == w@.subrange(
                        fence_open().len() as int,
                        w@.len() - fence_close().len(),
                    ));
                }
                Command::RunCode(src.to_owned())
            } else {
                Command::InvalidCommand
            }
        }
    }
}

/// Law: a parsed run command always carries a non-empty program token, and
/// every argument is likewise non-empty and free of whitespace. An input
/// that cannot produce a program token parses to the invalid command, a
/// distinguishable value, never to a run command and never to a crash.
pub proof fn lemma_run_program_nonempty(input: Seq<char>)
    requires
        parse_spec(input) is Run,
    ensures
        crate::text::wf_token(parse_spec(input)->program),
        forall|i: int|
            0 <= i < parse_spec(input)->args.len() ==> crate::text::wf_token(
                #[trigger] parse_spec(input)->args[i],
            ),
{
    let t = trim_start_spec(input);
    let toks = tokens_spec(t);
    crate::text::lemma_tokens_wf(t);
    assert(crate::text::wf_token(toks[1]));
    assert forall|i: int| 0 <= i < parse_spec(input)->args.len() implies crate::text::wf_token(
        #[trigger] parse_spec(input)->args[i],
    ) by {
        assert(parse_spec(input)->args[i] == toks[i + 2]);
    }
}

/// Law: re-parsing the dispatcher's passthrough of a terminal answer, put
/// back behind its keyword, yields the same terminal answer. The whitespace
/// collapsing of the terminal form is idempotent: once collapsed, a message
/// survives the round trip unchanged.
pub proof fn lemma_final_roundtrip(input: Seq<char>)
    requires
        parse_spec(input) is Final,
    ensures
        parse_spec(final_kw() + seq![' '] + parse_spec(input)->message) == parse_spec(input),
{
    let t = trim_start_spec(input);
    let ts1 = tokens_spec(t).skip(1);
    let m = join_spec(ts1);
    assert(parse_spec(input)->message == m);
    let s2 = final_kw() + seq![' '] + m;
    assert(s2[0] == 'F');
    assert(s2[1] == 'I');
    assert(s2[2] == 'N');
    assert(s2[3] == 'A');
    assert(s2[4] == 'L');
    assert(s2[5] == ' ');
    assert(trim_start_spec(s2) == s2) by {
        assert(!is_space_char(s2.first()));
    }
    assert(!starts_with(s2, run_kw())) by {
        if starts_with(s2, run_kw()) {
            assert(s2.take(run_kw().len() as int)[0] == s2[0]);
        }
    }
    assert(starts_with(s2, final_kw())) by {
        assert(s2.take(final_kw().len() as int) =~= final_kw());
    }
    crate::text::lemma_tokens_wf(t);
    assert(crate::text::wf_tokens(ts1)) by {
        assert forall|i: int| 0 <= i < ts1.len() implies crate::text::wf_token(
            #[trigger] ts1[i],
        ) by {
            assert(ts1[i] == tokens_spec(t)[i + 1]);
        }
    }
    if ts1.len() == 0 {
        assert(m =~= Seq::<char>::empty());
        assert(s2.len() == 6);
        crate::text::lemma_token_len_range(s2, 5);
        assert(tokens_spec(s2) == seq![s2.take(5)] + tokens_spec(s2.skip(5)));
        assert(s2.take(5) =~= final_kw());
        let tail = s2.skip(5);
        assert(tail =~= seq![' ']);
        assert(is_space_char(tail.first()));
        assert(tail.drop_first() =~= Seq::<char>::empty());
        assert(tokens_spec(tail) == tokens_spec(Seq::<char>::empty()));
        assert(tokens_spec(s2) =~~= seq![final_kw()]);
        assert(tokens_spec(s2).skip(1) =~~= ts1);
    } else {
        crate::text::lemma_join_unfold_front(ts1);
        assert(m[0] == ts1.first()[0]) by {
            if ts1.len() == 1 {
                assert(m == ts1.first());
            }
        }
        assert(crate::text::wf_token(ts1[0]));
        assert(!is_space_char(m[0]));
        assert forall|k: int| 0 <= k < 5 implies !is_space_char(s2[k]) by {
            assert(!is_space_char('F') && !is_space_char('I') && !is_space_char('N')
                && !is_space_char('A') && !is_space_char('L'));
        }
        crate::text::lemma_token_len_range(s2, 5);
        assert(tokens_spec(s2) == seq![s2.take(5)] + tokens_spec(s2.skip(5)));
        assert(s2.take(5) =~= final_kw());
        let tail = s2.skip(5);
        assert(tail =~= seq![' '] + m);
        assert(is_space_char(tail.first()));
        assert(tail.drop_first() =~= m);
        assert(tokens_spec(tail) == tokens_spec(m));
        crate::text::lemma_tokens_of_join(ts1);
        assert(tokens_spec(s2) == seq![final_kw()] + ts1);
        assert(tokens_spec(s2).skip(1) =~~= ts1);
    }
    assert(join_spec(tokens_spec(s2).skip(1)) == m);
}

/// The first value bound under `name`, reading the entries front to back.
pub open spec fn lookup_in(entries: Seq<(Seq<char>, Seq<char>)>, name: Seq<char>) -> Option<
    Seq<char>,
>
    decreases entries.len(),
{
    if entries.len() == 0 {
        None
    } else if entries.first().0 == name {
        Some(entries.first().1)
    } else {
        lookup_in(entries.drop_first(), name)
    }
}

/// A session's working data: a mapping from variable name to value, owned by
/// one session and seeded before any guest code runs. A later binding of a
/// name shadows an earlier one.
pub struct SessionContext {
    pub(crate) entries: Vec<(String, String)>,
}

impl View for SessionContext {
    type V = Seq<(Seq<char>, Seq<char>)>;

    closed spec fn view(&self) -> Seq<(Seq<char>, Seq<char>)> {
        Seq::new(self.entries@.len(), |i: int| (self.entries@[i].0@, self.entries@[i].1@))
    }
}

impl SessionContext {
    /// An empty mapping.
    pub fn new() -> (r: SessionContext)
        ensures
            r@ == Seq::<(Seq<char>, Seq<char>)>::empty(),
    {
        let r = SessionContext { entries: Vec::new() };
        proof {
            assert(r@ =~= Seq::<(Seq<char>, Seq<char>)>::empty());
        }
        r
    }

    /// Bind `value` under `name`, shadowing any earlier binding of the name
    /// and leaving every other name's binding as it was.
    pub fn set(&mut self, name: String, value: String)
        ensures
            forall|k: Seq<char>|
                #[trigger] lookup_in(final(self)@, k) == if k == name@ {
                    Some(value@)
                } else {
                    lookup_in(old(self)@, k)
                },
    {
        let ghost before = self@;
        let ghost namev = name@;
        let ghost valuev = value@;
        self.entries.insert(0, (name, value));
        proof {
            assert(self@ =~= before.insert(0, (namev, valuev)));
            assert forall|k: Seq<char>|
                #[trigger] lookup_in(self@, k) == if k == namev {
                    Some(valuev)
                } else {
                    lookup_in(before, k)
                } by {
                assert(self@.first() == (namev, valuev));
                assert(self@.drop_first() =~= before);
            }
        }
    }

    /// The value bound under `name`, if any.
    pub fn get(&self, name: &str) -> (r: Option<String>)
        ensures
            match r {
                Some(v) => lookup_in(self@, name@) == Some(v@),
                None => lookup_in(self@, name@) is None,
            },
    {
        let mut i: usize = 0;
        proof {
            assert(self@.skip(0) =~= self@);
        }
        while i < self.entries.len()
            invariant
                i <= self.entries@.len(),
                self@.len() == self.entries@.len(),
                forall|j: int|
                    0 <= j < self@.len() ==> #[trigger] self@[j] == (
                    self.entries@[j].0@,
                    self.entries@[j].1@,
                ),
                lookup_in(self@, name@) == lookup_in(self@.skip(i as int), name@),
            decreases self.entries@.len() - i,
        {
            proof {
                assert(self@.skip(i as int).first() == self@[i as int]);
            }
            if str_eq(self.entries[i].0.as_str(), name) {
                return Some(self.entries[i].1.clone());
            }
            proof {
                assert(self@.skip(i as int).drop_first() =~= self@.skip(i as int + 1));
            }
            i += 1;
        }
        proof {
            assert(self@.skip(i as int) =~= Seq::<(Seq<char>, Seq<char>)>::empty());
        }
        None
    }
}

/// A dispatcher's hard failure. Everything a command legitimately produces,
/// a failing process or a raising guest script included, is returned as
/// ordinary text instead; only a command that names no work at all is an
/// error.
#[derive(Debug, PartialEq, Eq, Structural)]
pub enum DispatchError {
    InvalidCommand,
}

impl DispatchError {
    /// The corrective text fed back to the model for this failure.
    pub fn describe(&self) -> (r: String)
        ensures
            r@ == "Could not find command."@,
    {
        String::from_str("Could not find command.")
    }
}

/// Complete a shell-run dispatch from the finished process's outcome. The
/// result is always success, never an error: a non-zero exit surfaces its
/// captured standard error text as ordinary feedback for the model, a zero
/// exit reports the captured standard output.
pub fn process_outcome(success: bool, stdout: String, stderr: String) -> (r: Result<
    String,
    DispatchError,
>)
    ensures
        r matches Ok(m) && m@ == if success {
            stdout@
        } else {
            stderr@
        },
{
    if success {
        Ok(stdout)
    } else {
        Ok(stderr)
    }
}

/// One conversation's dispatcher, owning the session's working data.
pub struct REPL {
    pub context: SessionContext,
}

impl REPL {
    /// A dispatcher with an empty session context.
    pub fn new() -> (r: REPL)
        ensures
            r.context@ == Seq::<(Seq<char>, Seq<char>)>::empty(),
    {
        REPL { context: SessionContext::new() }
    }

    /// The session value bound under `name`, if any.
    pub fn get_variable(&self, name: &str) -> (r: Option<String>)
        ensures
            match r {
                Some(v) => lookup_in(self.context@, name@) == Some(v@),
                None => lookup_in(self.context@, name@) is None,
            },
    {
        self.context.get(name)
    }

    /// Route one parsed command. A terminal answer passes through unchanged;
    /// guest code runs in the embedded interpreter, every in-guest failure
    /// recovered as ordinary text; an invalid command is the one hard error.
    /// A shell-run command needs a spawned process, which this layer cannot
    /// perform: the caller runs the process and normalises its outcome with
    /// [`process_outcome`].
    pub fn run_command(&self, command: Command) -> (r: Result<String, DispatchError>)
        requires
            !(command@ is Run),
        ensures
            command@ matches SpecCommand::Final { message } ==> r matches Ok(m) && m@ == message,
            command@ is RunCode ==> r is Ok,
            command@ is Invalid ==> r == Err::<String, DispatchError>(DispatchError::InvalidCommand),
    {
        match command {
            // Excluded by the contract; an unverified caller that reaches it
            // anyway gets the recoverable error, never a spawned process.
            Command::Run(_) => Err(DispatchError::InvalidCommand),
            Command::Final(message) => Ok(message),
            Command::RunCode(source) => Ok(
                crate::exec::execution_outcome(
                    crate::exec::run_guest(source.as_str(), &self.context),
                ),
            ),
            Command::InvalidCommand => Err(DispatchError::InvalidCommand),
        }
    }
}

impl Default for REPL {
    /// Same as [`REPL::new`].
    fn default() -> (r: REPL)
        ensures
            r.context@ == Seq::<(Seq<char>, Seq<char>)>::empty(),
    {
        REPL::new()
    }
}

} // verus!
