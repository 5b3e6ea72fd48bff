//! One shell invocation directive, its variable resolver and its template
//! expander.  A command template may hold `${name}` placeholders; each is
//! resolved from the call-time arguments, the task-file variables or an
//! environment snapshot, in that fixed order, and substitution repeats
//! until no placeholder is left or a bounded number of passes is exceeded.
use vstd::prelude::*;
use crate::argument::{arg_position, contains_value, lemma_arg_position, options_contain, Argument};
use crate::error::{is_resolve_err, PuffError, ResolveOutcome};
use crate::puff::Puff;
use crate::runner::CommandKind;
use crate::task::Task;
use crate::text::{find_char, lemma_find_char, str_eq};
use crate::vars::Vars;

verus! {

/// A command launched without waiting for it.
pub struct Threaded {
    /// The command-string template.
    pub command: String,
}

/// A command that first waits for every launched command still in flight.
pub struct Waiter {
    /// The command-string template.
    pub command: String,
}

/// One shell invocation directive of a task.
pub enum TaskCommand {
    /// Run synchronously; the task fails on a non-zero exit code.
    Classic(String),
    /// Launch without waiting.
    Multithreaded(Threaded),
    /// Quiesce, then run as `Classic` does.
    Threadwaiter(Waiter),
}

impl TaskCommand {
    /// How this command is dispatched.
    pub open spec fn kind(self) -> CommandKind {
        match self {
            TaskCommand::Classic(_) => CommandKind::Blocking,
            TaskCommand::Multithreaded(_) => CommandKind::FireAndForget,
            TaskCommand::Threadwaiter(_) => CommandKind::WaitThenRun,
        }
    }

    /// The raw command-string template this command carries.
    pub open spec fn template(self) -> Seq<char> {
        match self {
            TaskCommand::Classic(s) => s@,
            TaskCommand::Multithreaded(t) => t.command@,
            TaskCommand::Threadwaiter(w) => w.command@,
        }
    }

    /// A copy of the raw template.
    pub fn template_string(&self) -> (r: String)
        ensures
            r@ == self.template(),
    {
        match self {
            TaskCommand::Classic(s) => s.clone(),
            TaskCommand::Multithreaded(t) => t.command.clone(),
            TaskCommand::Threadwaiter(w) => w.command.clone(),
        }
    }

    /// How this command is dispatched.
    pub fn command_kind(&self) -> (k: CommandKind)
        ensures
            k == self.kind(),
    {
        match self {
            TaskCommand::Classic(_) => CommandKind::Blocking,
            TaskCommand::Multithreaded(_) => CommandKind::FireAndForget,
            TaskCommand::Threadwaiter(_) => CommandKind::WaitThenRun,
        }
    }
}

/// What resolving `name` yields, given the call-time arguments, the task's
/// declared arguments, the task-file variables and the environment
/// snapshot.  The order of the sources is fixed and total: a declared
/// argument binds first (when call-time arguments are present at all),
/// then a task-file variable, then an environment variable; otherwise the
/// name is unknown.  No source silently yields an empty string.
pub open spec fn resolve_spec(
    name: Seq<char>,
    cargs: Option<Vec<String>>,
    arguments: Option<Vec<Argument>>,
    vars: Option<Vars>,
    env: Vars,
) -> ResolveOutcome {
    if cargs is Some && arguments is Some && arg_position(arguments.unwrap()@, name) is Some {
        let i = arg_position(arguments.unwrap()@, name).unwrap();
        let arg = arguments.unwrap()@[i];
        let chosen: Option<Seq<char>> = if i < cargs.unwrap()@.len() {
            Some(cargs.unwrap()@[i]@)
        } else {
            match arg.default {
                Some(d) => Some(d@),
                None => None,
            }
        };
        match chosen {
            Some(v) => match arg.options {
                Some(opts) => if options_contain(opts@, v) {
                    ResolveOutcome::Found { value: v }
                } else {
                    ResolveOutcome::Invalid { index: i }
                },
                None => ResolveOutcome::Found { value: v },
            },
            None => ResolveOutcome::Missing { index: i },
        }
    } else {
        match vars {
            Some(vs) => match vs.lookup(name) {
                Some(v) => ResolveOutcome::Found { value: v },
                None => match env.lookup(name) {
                    Some(v) => ResolveOutcome::Found { value: v },
                    None => ResolveOutcome::Unknown,
                },
            },
            None => match env.lookup(name) {
                Some(v) => ResolveOutcome::Found { value: v },
                None => ResolveOutcome::Unknown,
            },
        }
    }
}

/// Does `r` report exactly what `resolve_spec` yields: the resolved value
/// on success, and the matching error otherwise?
pub open spec fn resolve_matches(
    r: Result<String, PuffError>,
    name: Seq<char>,
    cargs: Option<Vec<String>>,
    arguments: Option<Vec<Argument>>,
    vars: Option<Vars>,
    env: Vars,
) -> bool {
    match resolve_spec(name, cargs, arguments, vars, env) {
        ResolveOutcome::Found { value } => r is Ok && r->Ok_0@ == value,
        outcome => r is Err && is_resolve_err(r->Err_0, name, outcome),
    }
}

impl TaskCommand {
    /// Resolves the variable `name`: a declared argument first, then a
    /// task-file variable, then the environment snapshot; fails when the
    /// chosen argument value is not permitted, when a bound argument has
    /// neither a value nor a default, or when no source knows the name.
    pub fn find_var(
        &self,
        name: &str,
        args: &Option<Vec<String>>,
        task: &Task,
        puff: &Puff,
        env: &Vars,
    ) -> (r: Result<String, PuffError>)
        ensures
            resolve_matches(r, name@, *args, task.arguments, puff.variables, *env),
    {
        if let (Some(arguments), Some(cargs)) = (&task.arguments, args) {
            let n = arguments.len();
            let mut i: usize = 0;
            while i < n
                invariant
                    task.arguments == Some(*arguments),
                    *args == Some(*cargs),
                    n == arguments@.len(),
                    i <= n,
                    forall|j: int| 0 <= j < i ==> arguments@[j].name@ != name@,
                decreases n - i,
            {
                if str_eq(arguments[i].name.as_str(), name) {
                    proof {
                        lemma_arg_position(arguments@, name@);
                        assert(arg_position(arguments@, name@) == Some(i as int));
                    }
                    let arg = &arguments[i];
                    let chosen: Option<String> = if i < cargs.len() {
                        Some(cargs[i].clone())
                    } else {
                        match &arg.default {
                            Some(d) => Some(d.clone()),
                            None => None,
                        }
                    };
                    match chosen {
                        Some(v) => {
                            match &arg.options {
                                Some(opts) => {
                                    if contains_value(opts, v.as_str()) {
                                        return Ok(v);
                                    }
                                    return Err(
                                        PuffError::InvalidValue { index: i, name: name.to_owned() },
                                    );
                                },
                                None => {
                                    return Ok(v);
                                },
                            }
                        },
                        None => {
                            return Err(
                                PuffError::MustProvide { index: i, name: name.to_owned() },
                            );
                        },
                    }
                }
                i = i + 1;
            }
            proof {
                lemma_arg_position(arguments@, name@);
                assert(arg_position(arguments@, name@) is None);
            }
        }
        match &puff.variables {
            Some(vs) => match vs.get(name) {
                Some(v) => {
                    return Ok(v.clone());
                },
                None => {},
            },
            None => {},
        }
        match env.get(name) {
            Some(v) => {
                return Ok(v.clone());
            },
            None => {},
        }
        Err(PuffError::VarNotFound { name: name.to_owned() })
    }
}

/// For every argument with a permitted-value set, a call-time value
/// outside that set makes resolution fail with the invalid-value error
/// naming the argument's position — it is never silently accepted.
pub proof fn lemma_rejected_option_value(
    name: Seq<char>,
    cargs: Option<Vec<String>>,
    arguments: Option<Vec<Argument>>,
    vars: Option<Vars>,
    env: Vars,
    i: int,
)
    requires
        cargs is Some,
        arguments is Some,
        arg_position(arguments.unwrap()@, name) == Some(i),
        i < cargs.unwrap()@.len(),
        arguments.unwrap()@[i].options is Some,
        !options_contain(arguments.unwrap()@[i].options.unwrap()@, cargs.unwrap()@[i]@),
    ensures
        resolve_spec(name, cargs, arguments, vars, env) == (ResolveOutcome::Invalid { index: i }),
{
    lemma_arg_position(arguments.unwrap()@, name);
}

/// For every declared argument without a default, an invocation that
/// supplies fewer positional values than reach its position makes
/// resolution fail with the must-be-provided error naming the argument's
/// position.
pub proof fn lemma_missing_value(
    name: Seq<char>,
    cargs: Option<Vec<String>>,
    arguments: Option<Vec<Argument>>,
    vars: Option<Vars>,
    env: Vars,
    i: int,
)
    requires
        cargs is Some,
        arguments is Some,
        arg_position(arguments.unwrap()@, name) == Some(i),
        cargs.unwrap()@.len() <= i,
        arguments.unwrap()@[i].default is None,
    ensures
        resolve_spec(name, cargs, arguments, vars, env) == (ResolveOutcome::Missing { index: i }),
{
    lemma_arg_position(arguments.unwrap()@, name);
}

/// The largest number of substitution passes before expansion is declared
/// non-converging.  A resolved value may itself hold placeholders, so
/// substitution cascades; a self- or mutually-referential variable would
/// cascade forever, and this bound turns that into an error.
pub const MAX_EXPANSION_PASSES: usize = 32;

/// What one substitution pass yields.
pub enum PassOutcome {
    /// The pass finished; `out` is the pass's result and `found` says
    /// whether any placeholder was substituted.
    Done { out: Seq<char>, found: bool },
    /// Resolving `name` failed with `err`; the pass aborted.
    Bad { name: Seq<char>, err: ResolveOutcome },
}

/// What full expansion yields.
pub enum ExpandOutcome {
    /// Every placeholder was substituted away.
    Expanded(Seq<char>),
    /// Resolving `name` failed with `err`; expansion aborted.
    Bad { name: Seq<char>, err: ResolveOutcome },
    /// Placeholders were still found after the maximum number of passes.
    Diverged,
}

/// Does a placeholder stand at the very front of `s`: a `${`, then at
/// least one character other than `}`, then the first `}`?
pub open spec fn placeholder_at(s: Seq<char>) -> bool {
    s.len() >= 2 && s[0] == '$' && s[1] == '{' && match find_char(s.skip(2), '}') {
        Some(j) => j > 0,
        None => false,
    }
}

/// The name of the placeholder at the front of `s`.
pub open spec fn placeholder_name(s: Seq<char>) -> Seq<char>
    recommends
        placeholder_at(s),
{
    s.skip(2).take(find_char(s.skip(2), '}').unwrap())
}

/// What follows the placeholder at the front of `s`.
pub open spec fn placeholder_rest(s: Seq<char>) -> Seq<char>
    recommends
        placeholder_at(s),
{
    s.skip(2).skip(find_char(s.skip(2), '}').unwrap() + 1)
}

/// One substitution pass over `s`, scanning left to right: each
/// placeholder is resolved and replaced by its value (values substituted
/// in this pass are not rescanned by it), every other character is copied,
/// and the first resolution failure aborts the pass.
pub open spec fn pass_spec(
    s: Seq<char>,
    cargs: Option<Vec<String>>,
    arguments: Option<Vec<Argument>>,
    vars: Option<Vars>,
    env: Vars,
) -> PassOutcome
    decreases s.len(),
    via pass_spec_decreases
{
    if s.len() == 0 {
        PassOutcome::Done { out: s, found: false }
    } else if placeholder_at(s) {
        let name = placeholder_name(s);
        match resolve_spec(name, cargs, arguments, vars, env) {
            ResolveOutcome::Found { value } => match pass_spec(
                placeholder_rest(s),
                cargs,
                arguments,
                vars,
                env,
            ) {
                PassOutcome::Done { out, found } => PassOutcome::Done {
                    out: value + out,
                    found: true,
                },
                bad => bad,
            },
            err => PassOutcome::Bad { name, err },
        }
    } else {
        match pass_spec(s.drop_first(), cargs, arguments, vars, env) {
            PassOutcome::Done { out, found } => PassOutcome::Done {
                out: seq![s[0]] + out,
                found,
            },
            bad => bad,
        }
    }
}

#[via_fn]
proof fn pass_spec_decreases(
    s: Seq<char>,
    cargs: Option<Vec<String>>,
    arguments: Option<Vec<Argument>>,
    vars: Option<Vars>,
    env: Vars,
) {
    if s.len() > 0 && placeholder_at(s) {
        lemma_find_char(s.skip(2), '}');
    }
}

/// Does `s` hold a placeholder anywhere?
pub open spec fn has_placeholder(s: Seq<char>) -> bool
    decreases s.len(),
{
    if s.len() == 0 {
        false
    } else if placeholder_at(s) {
        true
    } else {
        has_placeholder(s.drop_first())
    }
}

/// A pass over a string without placeholders copies it unchanged and
/// substitutes nothing.
pub proof fn lemma_pass_no_placeholder(
    s: Seq<char>,
    cargs: Option<Vec<String>>,
    arguments: Option<Vec<Argument>>,
    vars: Option<Vars>,
    env: Vars,
)
    requires
        !has_placeholder(s),
    ensures
        pass_spec(s, cargs, arguments, vars, env) == (PassOutcome::Done { out: s, found: false }),
    decreases s.len(),
{
    if s.len() > 0 {
        lemma_pass_no_placeholder(s.drop_first(), cargs, arguments, vars, env);
        assert(seq![s[0]] + s.drop_first() =~= s);
    }
}

/// Full expansion of `s` with `fuel` passes left after the current one:
/// passes repeat until one finds no placeholder, and running out of fuel
/// while placeholders are still found means divergence.
pub open spec fn expand_spec(
    s: Seq<char>,
    cargs: Option<Vec<String>>,
    arguments: Option<Vec<Argument>>,
    vars: Option<Vars>,
    env: Vars,
    fuel: nat,
) -> ExpandOutcome
    decreases fuel,
{
    match pass_spec(s, cargs, arguments, vars, env) {
        PassOutcome::Done { out, found } => if !found {
            ExpandOutcome::Expanded(s)
        } else if fuel == 0 {
            ExpandOutcome::Diverged
        } else {
            expand_spec(out, cargs, arguments, vars, env, (fuel - 1) as nat)
        },
        PassOutcome::Bad { name, err } => ExpandOutcome::Bad { name, err },
    }
}

/// Template expansion is idempotent on inputs with no placeholders: a
/// string in which no `${...}` stands expands to itself, whatever the
/// resolution sources and whatever the pass bound.
pub proof fn lemma_expand_no_placeholder(
    s: Seq<char>,
    cargs: Option<Vec<String>>,
    arguments: Option<Vec<Argument>>,
    vars: Option<Vars>,
    env: Vars,
    fuel: nat,
)
    requires
        !has_placeholder(s),
    ensures
        expand_spec(s, cargs, arguments, vars, env, fuel) == ExpandOutcome::Expanded(s),
{
    lemma_pass_no_placeholder(s, cargs, arguments, vars, env);
}

/// The converse of `lemma_pass_no_placeholder`: a pass that substituted
/// nothing ran over a string without placeholders.
proof fn lemma_pass_found_none(
    s: Seq<char>,
    cargs: Option<Vec<String>>,
    arguments: Option<Vec<Argument>>,
    vars: Option<Vars>,
    env: Vars,
)
    requires
        pass_spec(s, cargs, arguments, vars, env) matches PassOutcome::Done {
            out: _,
            found: false,
        },
    ensures
        !has_placeholder(s),
    decreases s.len(),
{
    if s.len() > 0 && !placeholder_at(s) {
        lemma_pass_found_none(s.drop_first(), cargs, arguments, vars, env);
    }
}

/// A successful expansion leaves no placeholder behind: the string it
/// yields would pass another scan untouched.
pub proof fn lemma_expanded_is_placeholder_free(
    s: Seq<char>,
    cargs: Option<Vec<String>>,
    arguments: Option<Vec<Argument>>,
    vars: Option<Vars>,
    env: Vars,
    fuel: nat,
)
    ensures
        expand_spec(s, cargs, arguments, vars, env, fuel) matches ExpandOutcome::Expanded(t)
            ==> !has_placeholder(t),
    decreases fuel,
{
    match pass_spec(s, cargs, arguments, vars, env) {
        PassOutcome::Done { out, found } => {
            if !found {
                lemma_pass_found_none(s, cargs, arguments, vars, env);
            } else if fuel > 0 {
                lemma_expanded_is_placeholder_free(
                    out,
                    cargs,
                    arguments,
                    vars,
                    env,
                    (fuel - 1) as nat,
                );
            }
        },
        PassOutcome::Bad { .. } => {},
    }
}

/// A self-referential variable fails with a convergence error rather than
/// looping forever: when the name `A` resolves to the very placeholder
/// `${A}`, expanding `${A}` diverges, whatever the pass bound.
pub proof fn lemma_self_reference_diverges(
    cargs: Option<Vec<String>>,
    arguments: Option<Vec<Argument>>,
    vars: Option<Vars>,
    env: Vars,
    fuel: nat,
)
    requires
        resolve_spec("A"@, cargs, arguments, vars, env) == (ResolveOutcome::Found {
            value: "${A}"@,
        }),
    ensures
        expand_spec("${A}"@, cargs, arguments, vars, env, fuel) == ExpandOutcome::Diverged,
    decreases fuel,
{
    reveal_strlit("${A}");
    reveal_strlit("A");
    let s = "${A}"@;
    let t = s.skip(2);
    assert(t.len() == 2 && t[0] == 'A' && t[1] == '}');
    assert(find_char(t, '}') == Some(1int)) by {
        assert(t.drop_first().len() == 1 && t.drop_first()[0] == '}');
        assert(find_char(t.drop_first(), '}') == Some(0int));
    }
    assert(placeholder_at(s));
    assert(placeholder_name(s) =~= "A"@);
    assert(placeholder_rest(s).len() == 0);
    assert(pass_spec(placeholder_rest(s), cargs, arguments, vars, env) == (PassOutcome::Done {
        out: placeholder_rest(s),
        found: false,
    }));
    assert(s + placeholder_rest(s) =~= s);
    assert(pass_spec(s, cargs, arguments, vars, env) == (PassOutcome::Done {
        out: s,
        found: true,
    }));
    if fuel > 0 {
        lemma_self_reference_diverges(cargs, arguments, vars, env, (fuel - 1) as nat);
    }
}

/// Does `r` report exactly what expansion with the full pass bound yields?
pub open spec fn expand_matches(
    r: Result<String, PuffError>,
    s: Seq<char>,
    cargs: Option<Vec<String>>,
    arguments: Option<Vec<Argument>>,
    vars: Option<Vars>,
    env: Vars,
) -> bool {
    match expand_spec(s, cargs, arguments, vars, env, MAX_EXPANSION_PASSES as nat) {
        ExpandOutcome::Expanded(t) => r is Ok && r->Ok_0@ == t,
        ExpandOutcome::Bad { name, err } => r is Err && is_resolve_err(r->Err_0, name, err),
        ExpandOutcome::Diverged => r matches Err(PuffError::NoConvergence),
    }
}

impl TaskCommand {
    /// One substitution pass over `s`: substitutes every placeholder found
    /// and says whether any was.
    fn expand_once(
        &self,
        s: &String,
        args: &Option<Vec<String>>,
        task: &Task,
        puff: &Puff,
        env: &Vars,
    ) -> (r: Result<(String, bool), PuffError>)
        ensures
            match pass_spec(s@, *args, task.arguments, puff.variables, *env) {
                PassOutcome::Done { out, found } => r is Ok && r->Ok_0.0@ == out && r->Ok_0.1
                    == found,
                PassOutcome::Bad { name, err } => r is Err && is_resolve_err(r->Err_0, name, err),
            },
    {
        let n = s.as_str().unicode_len();
        let mut out = String::new();
        let mut found = false;
        let mut i: usize = 0;
        proof {
            assert(s@.skip(0) =~= s@);
            if let PassOutcome::Done { out: o, found: f } = pass_spec(
                s@,
                *args,
                task.arguments,
                puff.variables,
                *env,
            ) {
                assert(out@ + o =~= o);
            }
        }
        while i < n
            invariant
                n == s@.len(),
                i <= n,
                match pass_spec(s@.skip(i as int), *args, task.arguments, puff.variables, *env) {
                    PassOutcome::Done { out: o, found: f } => pass_spec(
                        s@,
                        *args,
                        task.arguments,
                        puff.variables,
                        *env,
                    ) == (PassOutcome::Done { out: out@ + o, found: found || f }),
                    PassOutcome::Bad { name, err } => pass_spec(
                        s@,
                        *args,
                        task.arguments,
                        puff.variables,
                        *env,
                    ) == (PassOutcome::Bad { name, err }),
                },
            decreases n - i,
        {
            let ghost suffix = s@.skip(i as int);
            let ghost prev = out@;
            let c = s.as_str().get_char(i);
            if c == '$' && i + 1 < n && s.as_str().get_char(i + 1) == '{' {
                let mut j = i + 2;
                while j < n && s.as_str().get_char(j) != '}'
                    invariant
                        n == s@.len(),
                        i + 2 <= j <= n,
                        forall|k: int| i + 2 <= k < j ==> s@[k] != '}',
                    decreases n - j,
                {
                    j = j + 1;
                }
                let ghost tail = s@.skip(i + 2);
                proof {
                    lemma_find_char(tail, '}');
                    assert(forall|m: int| 0 <= m < tail.len() ==> tail[m] == s@[m + i + 2]);
                }
                if j < n && j > i + 2 {
                    proof {
                        assert(tail[j - i - 2] == '}');
                        assert(forall|m: int| 0 <= m < j - i - 2 ==> tail[m] != '}');
                        assert(find_char(tail, '}') == Some(j - i - 2));
                        assert(suffix.len() >= 2 && suffix[0] == '$' && suffix[1] == '{');
                        assert(suffix.skip(2) =~= tail);
                        assert(placeholder_at(suffix));
                        assert(placeholder_name(suffix) =~= s@.subrange(i + 2, j as int));
                        assert(placeholder_rest(suffix) =~= s@.skip(j + 1));
                    }
                    let name = s.as_str().substring_char(i + 2, j);
                    match self.find_var(name, args, task, puff, env) {
                        Ok(value) => {
                            out.append(value.as_str());
                            found = true;
                            proof {
                                if let PassOutcome::Done { out: o, found: f } = pass_spec(
                                    s@.skip(j + 1),
                                    *args,
                                    task.arguments,
                                    puff.variables,
                                    *env,
                                ) {
                                    assert(out@ + o =~= prev + (value@ + o));
                                }
                            }
                            i = j + 1;
                        },
                        Err(e) => {
                            return Err(e);
                        },
                    }
                } else {
                    proof {
                        assert(suffix.skip(2) =~= tail);
                        if j >= n {
                            assert(forall|m: int| 0 <= m < tail.len() ==> tail[m] != '}');
                            assert(find_char(tail, '}') is None);
                        } else {
                            assert(tail[0] == '}');
                            assert(find_char(tail, '}') == Some(0int));
                        }
                        assert(!placeholder_at(suffix));
                    }
                    out.push('$');
                    proof {
                        assert(suffix.drop_first() =~= s@.skip(i + 1));
                        if let PassOutcome::Done { out: o, found: f } = pass_spec(
                            s@.skip(i + 1),
                            *args,
                            task.arguments,
                            puff.variables,
                            *env,
                        ) {
                            assert(out@ + o =~= prev + (seq![suffix[0]] + o));
                        }
                    }
                    i = i + 1;
                }
            } else {
                proof {
                    assert(!placeholder_at(suffix)) by {
                        if suffix.len() >= 2 {
                            assert(suffix[0] == s@[i as int]);
                            assert(suffix[1] == s@[i + 1]);
                        }
                    }
                }
                out.push(c);
                proof {
                    assert(suffix.drop_first() =~= s@.skip(i + 1));
                    if let PassOutcome::Done { out: o, found: f } = pass_spec(
                        s@.skip(i + 1),
                        *args,
                        task.arguments,
                        puff.variables,
                        *env,
                    ) {
                        assert(out@ + o =~= prev + (seq![suffix[0]] + o));
                    }
                }
                i = i + 1;
            }
        }
        proof {
            assert(s@.skip(n as int).len() == 0);
            assert(out@ + Seq::<char>::empty() =~= out@);
        }
        Ok((out, found))
    }

    /// Expands the template `cmd`: substitution passes repeat until none
    /// finds a placeholder, resolution failures abort with their error,
    /// and exceeding the pass bound reports non-convergence.
    pub fn format(
        &self,
        cmd: String,
        args: &Option<Vec<String>>,
        task: &Task,
        puff: &Puff,
        env: &Vars,
    ) -> (r: Result<String, PuffError>)
        ensures
            expand_matches(r, cmd@, *args, task.arguments, puff.variables, *env),
    {
        let ghost orig = cmd@;
        let mut cur = cmd;
        let mut k: usize = 0;
        loop
            invariant
                k <= MAX_EXPANSION_PASSES,
                orig == cmd@,
                expand_spec(
                    orig,
                    *args,
                    task.arguments,
                    puff.variables,
                    *env,
                    MAX_EXPANSION_PASSES as nat,
                ) == expand_spec(
                    cur@,
                    *args,
                    task.arguments,
                    puff.variables,
                    *env,
                    (MAX_EXPANSION_PASSES - k) as nat,
                ),
            decreases MAX_EXPANSION_PASSES - k,
        {
            match self.expand_once(&cur, args, task, puff, env) {
                Ok((next, found)) => {
                    if !found {
                        return Ok(cur);
                    }
                    if k == MAX_EXPANSION_PASSES {
                        return Err(PuffError::NoConvergence);
                    }
                    cur = next;
                    k = k + 1;
                },
                Err(e) => {
                    return Err(e);
                },
            }
        }
    }
}

} // verus!
