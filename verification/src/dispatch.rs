//! The command dispatcher: the grammar that turns a token list into a plan
//! of operations, and the one-step semantics that applies an operation to
//! the current stack, yielding the stack to persist and the lines to print.

use vstd::prelude::*;

use crate::args::req_param;
use crate::entry::{clone_entries, clone_entry, entries_view, Entry};
use crate::errors::{unrecognized_option_error, Error, ErrorKind, ErrorV};
use crate::stack::{bury, clear, look, look_all, push, push_cwd, push_back_spec, push_front_spec, take};

verus! {

/// One operation of the dispatcher.
#[derive(Debug)]
pub enum Cmd {
    /// Report the front entry; empty-stack condition when there is none.
    Look,
    /// Report every entry, front to back.
    LookAll,
    /// Remove the front entry, persist the remainder, and report it.
    Take,
    /// Persist an empty stack.
    Clear,
    /// Push the current working directory in front.
    PushCwd,
    /// Push the given values in front, first value frontmost.
    Push(Vec<Entry>),
    /// Bury the given values at the back, in order.
    Bury(Vec<Entry>),
    /// Print the usage text and stop.
    Help,
}

/// The mathematical model of an operation.
#[verifier::ext_equal]
pub enum CmdV {
    Look,
    LookAll,
    Take,
    Clear,
    PushCwd,
    Push(Seq<Seq<u8>>),
    Bury(Seq<Seq<u8>>),
    Help,
}

impl View for Cmd {
    type V = CmdV;

    open spec fn view(&self) -> CmdV {
        match self {
            Cmd::Look => CmdV::Look,
            Cmd::LookAll => CmdV::LookAll,
            Cmd::Take => CmdV::Take,
            Cmd::Clear => CmdV::Clear,
            Cmd::PushCwd => CmdV::PushCwd,
            Cmd::Push(vals) => CmdV::Push(entries_view(vals@)),
            Cmd::Bury(vals) => CmdV::Bury(entries_view(vals@)),
            Cmd::Help => CmdV::Help,
        }
    }
}

/// The mathematical model of a list of operations.
pub open spec fn cmds_view(cs: Seq<Cmd>) -> Seq<CmdV> {
    Seq::new(cs.len(), |i: int| cs[i]@)
}

/// What one operation does to the stack: the stack to persist (`None` for a
/// read-only step), the lines to print, whether the empty-stack condition
/// was met, and whether the usage text was asked for.
#[verifier::ext_equal]
pub struct StepOutcomeV {
    pub new_stack: Option<Seq<Seq<u8>>>,
    pub output: Seq<Seq<u8>>,
    pub empty_signal: bool,
    pub help: bool,
}

/// The result of applying one operation.
pub struct StepOutcome {
    /// The stack to persist, or `None` when storage is left untouched.
    pub new_stack: Option<Vec<Entry>>,
    /// The lines to print, in order.
    pub output: Vec<Entry>,
    /// Whether a front operation found the stack empty.
    pub empty_signal: bool,
    /// Whether the usage text was asked for.
    pub help: bool,
}

impl View for StepOutcome {
    type V = StepOutcomeV;

    open spec fn view(&self) -> StepOutcomeV {
        StepOutcomeV {
            new_stack: match self.new_stack {
                Some(s) => Some(entries_view(s@)),
                None => None,
            },
            output: entries_view(self.output@),
            empty_signal: self.empty_signal,
            help: self.help,
        }
    }
}

/// The one-step semantics of the dispatcher: what each operation, applied to
/// the given stack with the given current directory, persists and prints.
pub open spec fn apply_spec(stack: Seq<Seq<u8>>, cmd: CmdV, cwd: Seq<u8>) -> StepOutcomeV {
    match cmd {
        CmdV::Look => (StepOutcomeV {
            new_stack: None,
            output: if stack.len() > 0 {
                seq![stack[0]]
            } else {
                Seq::empty()
            },
            empty_signal: stack.len() == 0,
            help: false,
        }),
        CmdV::LookAll => (StepOutcomeV {
            new_stack: None,
            output: stack,
            empty_signal: false,
            help: false,
        }),
        CmdV::Take => (StepOutcomeV {
            new_stack: if stack.len() > 0 {
                Some(stack.skip(1))
            } else {
                None
            },
            output: if stack.len() > 0 {
                seq![stack[0]]
            } else {
                Seq::empty()
            },
            empty_signal: stack.len() == 0,
            help: false,
        }),
        CmdV::Clear => (StepOutcomeV {
            new_stack: Some(Seq::empty()),
            output: Seq::empty(),
            empty_signal: false,
            help: false,
        }),
        CmdV::PushCwd => (StepOutcomeV {
            new_stack: Some(push_front_spec(stack, seq![cwd])),
            output: Seq::empty(),
            empty_signal: false,
            help: false,
        }),
        CmdV::Push(vals) => (StepOutcomeV {
            new_stack: Some(push_front_spec(stack, vals)),
            output: Seq::empty(),
            empty_signal: false,
            help: false,
        }),
        CmdV::Bury(vals) => (StepOutcomeV {
            new_stack: Some(push_back_spec(stack, vals)),
            output: Seq::empty(),
            empty_signal: false,
            help: false,
        }),
        CmdV::Help => (StepOutcomeV {
            new_stack: None,
            output: Seq::empty(),
            empty_signal: false,
            help: true,
        }),
    }
}

/// Applies one operation to the stack it was loaded with.
pub fn apply(stack: Vec<Entry>, cmd: &Cmd, cwd: &Entry) -> (r: StepOutcome)
    ensures
        r@ == apply_spec(entries_view(stack@), cmd@, cwd@),
{
    let ghost sv = entries_view(stack@);
    let r = match cmd {
        Cmd::Look => {
            let mut output: Vec<Entry> = Vec::new();
            let empty_signal = match look(&stack) {
                Some(e) => {
                    output.push(e);
                    false
                },
                None => true,
            };
            StepOutcome { new_stack: None, output, empty_signal, help: false }
        },
        Cmd::LookAll => {
            let output = look_all(&stack);
            StepOutcome { new_stack: None, output, empty_signal: false, help: false }
        },
        Cmd::Take => {
            let mut st = stack;
            let mut output: Vec<Entry> = Vec::new();
            match take(&mut st) {
                Some(e) => {
                    output.push(e);
                    StepOutcome { new_stack: Some(st), output, empty_signal: false, help: false }
                },
                None => {
                    StepOutcome { new_stack: None, output, empty_signal: true, help: false }
                },
            }
        },
        Cmd::Clear => {
            StepOutcome {
                new_stack: Some(clear()),
                output: Vec::new(),
                empty_signal: false,
                help: false,
            }
        },
        Cmd::PushCwd => {
            StepOutcome {
                new_stack: Some(push_cwd(stack, cwd)),
                output: Vec::new(),
                empty_signal: false,
                help: false,
            }
        },
        Cmd::Push(vals) => {
            StepOutcome {
                new_stack: Some(push(stack, clone_entries(vals))),
                output: Vec::new(),
                empty_signal: false,
                help: false,
            }
        },
        Cmd::Bury(vals) => {
            StepOutcome {
                new_stack: Some(bury(stack, clone_entries(vals))),
                output: Vec::new(),
                empty_signal: false,
                help: false,
            }
        },
        Cmd::Help => {
            StepOutcome { new_stack: None, output: Vec::new(), empty_signal: false, help: true }
        },
    };
    proof {
        assert(entries_view(Seq::<Entry>::empty()) =~= Seq::<Seq<u8>>::empty());
        assert(r@ =~= apply_spec(sv, cmd@, cwd@));
    }
    r
}

/// The marker byte `-`, which opens a command token.
pub const MARKER: u8 = 45;

/// A token selects a command rather than a bare value when it starts with
/// the marker byte.
pub open spec fn is_marker_spec(t: Seq<u8>) -> bool {
    t.len() > 0 && t[0] == MARKER
}

/// The token `-l`, peek-front.
pub open spec fn tok_look() -> Seq<u8> {
    seq![MARKER, 108]
}

/// The token `-L`, peek-all.
pub open spec fn tok_look_all() -> Seq<u8> {
    seq![MARKER, 76]
}

/// The token `-t`, take-front.
pub open spec fn tok_take() -> Seq<u8> {
    seq![MARKER, 116]
}

/// The token `-c`, clear.
pub open spec fn tok_clear() -> Seq<u8> {
    seq![MARKER, 99]
}

/// The token `-w`, push the current working directory.
pub open spec fn tok_push_cwd() -> Seq<u8> {
    seq![MARKER, 119]
}

/// The token `-p`, push-front with the one following token.
pub open spec fn tok_push_one() -> Seq<u8> {
    seq![MARKER, 112]
}

/// The token `-b`, push-back with the one following token.
pub open spec fn tok_bury_one() -> Seq<u8> {
    seq![MARKER, 98]
}

/// The token `-P`, push-front with every remaining token.
pub open spec fn tok_push_rest() -> Seq<u8> {
    seq![MARKER, 80]
}

/// The token `-B`, push-back with every remaining token.
pub open spec fn tok_bury_rest() -> Seq<u8> {
    seq![MARKER, 66]
}

/// The token `-h`, help.
pub open spec fn tok_help() -> Seq<u8> {
    seq![MARKER, 104]
}

/// The token `--help`.
pub open spec fn tok_help_long() -> Seq<u8> {
    seq![MARKER, MARKER, 104, 101, 108, 112]
}

/// Prepends a parsed command to the rest of a plan; an error further right
/// stays an error.
pub open spec fn cons_cmd(c: CmdV, rest: Result<Seq<CmdV>, ErrorV>) -> Result<
    Seq<CmdV>,
    ErrorV,
> {
    match rest {
        Ok(cs) => Ok(seq![c] + cs),
        Err(e) => Err(e),
    }
}

/// The command grammar, token-driven, left to right: a bare token pushes
/// itself; two-byte marker tokens select an operation; `-p` and `-b` demand
/// one following operand; `-P` and `-B` consume every remaining token and
/// stop; help stops and ignores what remains; any other marker token is a
/// usage error.
pub open spec fn parse_toks(args: Seq<Seq<u8>>) -> Result<Seq<CmdV>, ErrorV>
    decreases args.len(),
{
    if args.len() == 0 {
        Ok(Seq::empty())
    } else {
        let t = args[0];
        if !is_marker_spec(t) {
            cons_cmd(CmdV::Push(seq![t]), parse_toks(args.skip(1)))
        } else if t == tok_look() {
            cons_cmd(CmdV::Look, parse_toks(args.skip(1)))
        } else if t == tok_look_all() {
            cons_cmd(CmdV::LookAll, parse_toks(args.skip(1)))
        } else if t == tok_take() {
            cons_cmd(CmdV::Take, parse_toks(args.skip(1)))
        } else if t == tok_clear() {
            cons_cmd(CmdV::Clear, parse_toks(args.skip(1)))
        } else if t == tok_push_cwd() {
            cons_cmd(CmdV::PushCwd, parse_toks(args.skip(1)))
        } else if t == tok_push_one() {
            if args.len() >= 2 {
                cons_cmd(CmdV::Push(seq![args[1]]), parse_toks(args.skip(2)))
            } else {
                Err(ErrorV { kind: ErrorKind::MissingArgument, token: t })
            }
        } else if t == tok_bury_one() {
            if args.len() >= 2 {
                cons_cmd(CmdV::Bury(seq![args[1]]), parse_toks(args.skip(2)))
            } else {
                Err(ErrorV { kind: ErrorKind::MissingArgument, token: t })
            }
        } else if t == tok_push_rest() {
            Ok(seq![CmdV::Push(args.skip(1))])
        } else if t == tok_bury_rest() {
            Ok(seq![CmdV::Bury(args.skip(1))])
        } else if t == tok_help() || t == tok_help_long() {
            Ok(seq![CmdV::Help])
        } else {
            Err(ErrorV { kind: ErrorKind::UnrecognizedOption, token: t })
        }
    }
}

/// The whole plan for an invocation: an empty argument list defaults to a
/// single peek-front.
pub open spec fn parse_plan(args: Seq<Seq<u8>>) -> Result<Seq<CmdV>, ErrorV> {
    if args.len() == 0 {
        Ok(seq![CmdV::Look])
    } else {
        parse_toks(args)
    }
}

/// Whether a token starts with the marker byte.
fn is_marker(t: &Entry) -> (r: bool)
    ensures
        r == is_marker_spec(t@),
{
    t.len() > 0 && t[0] == MARKER
}

/// Whether a token is the two-byte marker token with second byte `c`.
fn is_opt(t: &Entry, c: u8) -> (r: bool)
    ensures
        r <==> t@ == seq![MARKER, c],
{
    let r = t.len() == 2 && t[0] == MARKER && t[1] == c;
    proof {
        if r {
            assert(t@ =~= seq![MARKER, c]);
        } else {
            assert(t@ != seq![MARKER, c]);
        }
    }
    r
}

/// Whether a token is the long help token `--help`.
fn is_help_long(t: &Entry) -> (r: bool)
    ensures
        r <==> t@ == tok_help_long(),
{
    let r = t.len() == 6 && t[0] == MARKER && t[1] == MARKER && t[2] == 104 && t[3] == 101 && t[4]
        == 108 && t[5] == 112;
    proof {
        if r {
            assert(t@ =~= tok_help_long());
        } else {
            assert(t@ != tok_help_long());
        }
    }
    r
}

/// Prepending each parsed command in turn: what a finished prefix of parsed
/// commands contributes to the whole plan.
pub open spec fn cons_all(prefix: Seq<CmdV>, rest: Result<Seq<CmdV>, ErrorV>) -> Result<
    Seq<CmdV>,
    ErrorV,
> {
    match rest {
        Ok(cs) => Ok(prefix + cs),
        Err(e) => Err(e),
    }
}

/// Moving one command from the rest of the plan to the finished prefix
/// changes nothing.
proof fn lemma_cons_all_push(prefix: Seq<CmdV>, c: CmdV, rest: Result<Seq<CmdV>, ErrorV>)
    ensures
        cons_all(prefix.push(c), rest) == cons_all(prefix, cons_cmd(c, rest)),
{
    match rest {
        Ok(cs) => {
            assert(prefix.push(c) + cs =~= prefix + (seq![c] + cs));
        },
        Err(_) => {},
    }
}

/// Parses the whole argument list into the plan of operations to run, or
/// the usage error that stops the invocation before anything is mutated.
pub fn parse_args(args: &Vec<Entry>) -> (r: Result<Vec<Cmd>, Error>)
    ensures
        ({
            let p = parse_plan(entries_view(args@));
            match r {
                Ok(cs) => p matches Ok(pv) && cmds_view(cs@) == pv,
                Err(e) => p matches Err(ev) && e@ == ev,
            }
        }),
{
    let ghost av = entries_view(args@);
    if args.len() == 0 {
        let mut cs: Vec<Cmd> = Vec::new();
        cs.push(Cmd::Look);
        proof {
            assert(cmds_view(cs@) =~= seq![CmdV::Look]);
        }
        return Ok(cs);
    }
    let mut out: Vec<Cmd> = Vec::new();
    let mut i: usize = 0;
    proof {
        assert(av.skip(0) =~= av);
        assert(cmds_view(out@) =~= Seq::<CmdV>::empty());
        assert(cons_all(cmds_view(out@), parse_toks(av)) == parse_toks(av));
    }
    while i < args.len()
        invariant
            i <= args@.len(),
            0 < args@.len(),
            av == entries_view(args@),
            cons_all(cmds_view(out@), parse_toks(av.skip(i as int))) == parse_toks(av),
        decreases args@.len() - i,
    {
        let ghost rest = av.skip(i as int);
        let ghost prefix = cmds_view(out@);
        proof {
            assert(rest[0] == av[i as int]);
            assert(rest.skip(1) =~= av.skip(i as int + 1));
        }
        let t = &args[i];
        if !is_marker(t) {
            let mut vals: Vec<Entry> = Vec::new();
            vals.push(clone_entry(t));
            let cmd = Cmd::Push(vals);
            proof {
                assert(cmd@ =~= CmdV::Push(seq![t@]));
                assert(parse_toks(rest) == cons_cmd(cmd@, parse_toks(rest.skip(1))));
                lemma_cons_all_push(prefix, cmd@, parse_toks(rest.skip(1)));
            }
            out.push(cmd);
            proof {
                assert(cmds_view(out@) =~= prefix.push(cmd@));
            }
            i += 1;
        } else if is_opt(t, 108) {
            proof {
                lemma_cons_all_push(prefix, CmdV::Look, parse_toks(rest.skip(1)));
            }
            out.push(Cmd::Look);
            proof {
                assert(cmds_view(out@) =~= prefix.push(CmdV::Look));
            }
            i += 1;
        } else if is_opt(t, 76) {
            proof {
                lemma_cons_all_push(prefix, CmdV::LookAll, parse_toks(rest.skip(1)));
            }
            out.push(Cmd::LookAll);
            proof {
                assert(cmds_view(out@) =~= prefix.push(CmdV::LookAll));
            }
            i += 1;
        } else if is_opt(t, 116) {
            proof {
                lemma_cons_all_push(prefix, CmdV::Take, parse_toks(rest.skip(1)));
            }
            out.push(Cmd::Take);
            proof {
                assert(cmds_view(out@) =~= prefix.push(CmdV::Take));
            }
            i += 1;
        } else if is_opt(t, 99) {
            proof {
                lemma_cons_all_push(prefix, CmdV::Clear, parse_toks(rest.skip(1)));
            }
            out.push(Cmd::Clear);
            proof {
                assert(cmds_view(out@) =~= prefix.push(CmdV::Clear));
            }
            i += 1;
        } else if is_opt(t, 119) {
            proof {
                lemma_cons_all_push(prefix, CmdV::PushCwd, parse_toks(rest.skip(1)));
            }
            out.push(Cmd::PushCwd);
            proof {
                assert(cmds_view(out@) =~= prefix.push(CmdV::PushCwd));
            }
            i += 1;
        } else if is_opt(t, 112) {
            let maybe = if i + 1 < args.len() {
                Some(clone_entry(&args[i + 1]))
            } else {
                None
            };
            match req_param(t, maybe) {
                Ok(v) => {
                    let mut vals: Vec<Entry> = Vec::new();
                    vals.push(v);
                    let cmd = Cmd::Push(vals);
                    proof {
                        assert(rest[1] == av[i as int + 1]);
                        assert(cmd@ =~= CmdV::Push(seq![rest[1]]));
                        assert(rest.skip(2) =~= av.skip(i as int + 2));
                        assert(parse_toks(rest) == cons_cmd(cmd@, parse_toks(rest.skip(2))));
                        lemma_cons_all_push(prefix, cmd@, parse_toks(rest.skip(2)));
                    }
                    out.push(cmd);
                    proof {
                        assert(cmds_view(out@) =~= prefix.push(cmd@));
                    }
                    i += 2;
                },
                Err(e) => {
                    proof {
                        assert(parse_toks(rest) == Err::<Seq<CmdV>, ErrorV>(e@));
                    }
                    return Err(e);
                },
            }
        } else if is_opt(t, 98) {
            let maybe = if i + 1 < args.len() {
                Some(clone_entry(&args[i + 1]))
            } else {
                None
            };
            match req_param(t, maybe) {
                Ok(v) => {
                    let mut vals: Vec<Entry> = Vec::new();
                    vals.push(v);
                    let cmd = Cmd::Bury(vals);
                    proof {
                        assert(rest[1] == av[i as int + 1]);
                        assert(cmd@ =~= CmdV::Bury(seq![rest[1]]));
                        assert(rest.skip(2) =~= av.skip(i as int + 2));
                        assert(parse_toks(rest) == cons_cmd(cmd@, parse_toks(rest.skip(2))));
                        lemma_cons_all_push(prefix, cmd@, parse_toks(rest.skip(2)));
                    }
                    out.push(cmd);
                    proof {
                        assert(cmds_view(out@) =~= prefix.push(cmd@));
                    }
                    i += 2;
                },
                Err(e) => {
                    proof {
                        assert(parse_toks(rest) == Err::<Seq<CmdV>, ErrorV>(e@));
                    }
                    return Err(e);
                },
            }
        } else if is_opt(t, 80) {
            let vals = tail_from(args, i + 1);
            let cmd = Cmd::Push(vals);
            proof {
                assert(cmd@ =~= CmdV::Push(rest.skip(1)));
                assert(parse_toks(rest) == Ok::<Seq<CmdV>, ErrorV>(seq![cmd@]));
            }
            out.push(cmd);
            proof {
                assert(cmds_view(out@) =~= prefix.push(cmd@));
                assert(prefix.push(cmd@) =~= prefix + seq![cmd@]);
            }
            return Ok(out);
        } else if is_opt(t, 66) {
            let vals = tail_from(args, i + 1);
            let cmd = Cmd::Bury(vals);
            proof {
                assert(cmd@ =~= CmdV::Bury(rest.skip(1)));
                assert(parse_toks(rest) == Ok::<Seq<CmdV>, ErrorV>(seq![cmd@]));
            }
            out.push(cmd);
            proof {
                assert(cmds_view(out@) =~= prefix.push(cmd@));
                assert(prefix.push(cmd@) =~= prefix + seq![cmd@]);
            }
            return Ok(out);
        } else if is_opt(t, 104) || is_help_long(t) {
            proof {
                assert(parse_toks(rest) == Ok::<Seq<CmdV>, ErrorV>(seq![CmdV::Help]));
            }
            out.push(Cmd::Help);
            proof {
                assert(cmds_view(out@) =~= prefix.push(CmdV::Help));
                assert(prefix.push(CmdV::Help) =~= prefix + seq![CmdV::Help]);
            }
            return Ok(out);
        } else {
            let e = unrecognized_option_error(t);
            proof {
                assert(parse_toks(rest) == Err::<Seq<CmdV>, ErrorV>(e@));
            }
            return Err(e);
        }
    }
    proof {
        assert(av.skip(av.len() as int) =~= Seq::<Seq<u8>>::empty());
        assert(parse_toks(av.skip(av.len() as int)) == Ok::<Seq<CmdV>, ErrorV>(Seq::empty()));
        assert(cmds_view(out@) + Seq::<CmdV>::empty() =~= cmds_view(out@));
    }
    Ok(out)
}

/// Copies the tokens from position `from` to the end, in order.
fn tail_from(args: &Vec<Entry>, from: usize) -> (r: Vec<Entry>)
    requires
        from <= args@.len(),
    ensures
        entries_view(r@) == entries_view(args@).skip(from as int),
{
    let mut r: Vec<Entry> = Vec::new();
    let mut k: usize = from;
    while k < args.len()
        invariant
            from <= k <= args@.len(),
            r@.len() == k - from,
            forall|j: int| 0 <= j < r@.len() ==> r@[j]@ == args@[from + j]@,
        decreases args@.len() - k,
    {
        r.push(clone_entry(&args[k]));
        k += 1;
    }
    proof {
        assert(entries_view(r@) =~= entries_view(args@).skip(from as int));
    }
    r
}

/// Push-front law: pushing values and then peeking all yields the values,
/// in the order given, followed by the prior stack contents.
pub proof fn lemma_push_front_then_peek_all(stack: Seq<Seq<u8>>, vals: Seq<Seq<u8>>, cwd: Seq<u8>)
    ensures
        ({
            let pushed = apply_spec(stack, CmdV::Push(vals), cwd);
            pushed.new_stack matches Some(ns) && apply_spec(ns, CmdV::LookAll, cwd).output == vals
                + stack
        }),
{
}

/// Push-back law: burying values and then peeking all yields the prior
/// stack contents followed by the values, in the order given.
pub proof fn lemma_push_back_then_peek_all(stack: Seq<Seq<u8>>, vals: Seq<Seq<u8>>, cwd: Seq<u8>)
    ensures
        ({
            let buried = apply_spec(stack, CmdV::Bury(vals), cwd);
            buried.new_stack matches Some(ns) && apply_spec(ns, CmdV::LookAll, cwd).output == stack
                + vals
        }),
{
}

/// Take/peek consistency: taking the front removes exactly the entry that
/// peeking would have reported, with the same empty-stack signal, and after
/// a take the front is what was second from the front, or the empty-stack
/// condition when nothing is left.
pub proof fn lemma_take_peek_consistency(stack: Seq<Seq<u8>>, cwd: Seq<u8>)
    ensures
        apply_spec(stack, CmdV::Take, cwd).output == apply_spec(stack, CmdV::Look, cwd).output,
        apply_spec(stack, CmdV::Take, cwd).empty_signal == apply_spec(
            stack,
            CmdV::Look,
            cwd,
        ).empty_signal,
        stack.len() > 0 ==> (apply_spec(stack, CmdV::Take, cwd).new_stack matches Some(ns) && (
        ns.len() > 0 ==> apply_spec(ns, CmdV::Look, cwd).output == seq![stack[1]]) && (ns.len()
            == 0 ==> apply_spec(ns, CmdV::Look, cwd).empty_signal)),
{
    if stack.len() > 0 {
        let ns = stack.skip(1);
        if ns.len() > 0 {
            assert(ns[0] == stack[1]);
        }
    }
}

/// Clear idempotence: clearing twice leaves the stack empty just as
/// clearing once does, and peeking all after a clear prints nothing.
pub proof fn lemma_clear_idempotent(stack: Seq<Seq<u8>>, cwd: Seq<u8>)
    ensures
        ({
            let once = apply_spec(stack, CmdV::Clear, cwd);
            once.new_stack matches Some(ns1) && ns1.len() == 0 && (apply_spec(
                ns1,
                CmdV::Clear,
                cwd,
            ).new_stack matches Some(ns2) && ns2.len() == 0) && apply_spec(
                ns1,
                CmdV::LookAll,
                cwd,
            ).output.len() == 0
        }),
{
}

/// Empty-stack behavior: on an empty stack, peeking the front and taking
/// the front both signal the empty-stack condition, print nothing, and
/// leave storage untouched.
pub proof fn lemma_empty_stack_behavior(stack: Seq<Seq<u8>>, cwd: Seq<u8>)
    requires
        stack.len() == 0,
    ensures
        apply_spec(stack, CmdV::Look, cwd).empty_signal,
        apply_spec(stack, CmdV::Look, cwd).new_stack is None,
        apply_spec(stack, CmdV::Look, cwd).output.len() == 0,
        apply_spec(stack, CmdV::Take, cwd).empty_signal,
        apply_spec(stack, CmdV::Take, cwd).new_stack is None,
        apply_spec(stack, CmdV::Take, cwd).output.len() == 0,
{
}

} // verus!
