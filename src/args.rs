//! Parsing of the command line into a cutoff and the forwarded arguments.
use vstd::prelude::*;

verus! {

/// The token that introduces a cutoff: `--cutoff`.
pub open spec fn cutoff_flag() -> Seq<char> {
    seq!['-', '-', 'c', 'u', 't', 'o', 'f', 'f']
}

/// The token that asks for the usage text: `--help`.
pub open spec fn help_flag() -> Seq<char> {
    seq!['-', '-', 'h', 'e', 'l', 'p']
}

/// The token that ends option parsing: `--`.
pub open spec fn separator() -> Seq<char> {
    seq!['-', '-']
}

/// Whether a token has a meaning of its own to the parser.
pub open spec fn is_control_token(t: Seq<char>) -> bool {
    t == cutoff_flag() || t == help_flag() || t == separator()
}

/// The characters of each argument.
pub open spec fn tokens(v: Seq<String>) -> Seq<Seq<char>> {
    v.map_values(|s: String| s@)
}

/// What a command line means.
pub ghost enum ParsedModel {
    /// Print the usage text and succeed without running anything.
    Help,
    /// Go on, with an optional cutoff and the arguments for `cargo update`.
    Invocation { cutoff: Option<Seq<char>>, forwarded: Seq<Seq<char>> },
}

/// `rest` preceded by a cutoff whose value is `value`: a later cutoff wins.
pub open spec fn after_cutoff(value: Seq<char>, rest: ParsedModel) -> ParsedModel {
    match rest {
        ParsedModel::Help => ParsedModel::Help,
        ParsedModel::Invocation { cutoff, forwarded } => ParsedModel::Invocation {
            cutoff: if cutoff is Some {
                cutoff
            } else {
                Some(value)
            },
            forwarded,
        },
    }
}

/// `rest` preceded by an ordinary token, which is forwarded first.
pub open spec fn after_forwarded(t: Seq<char>, rest: ParsedModel) -> ParsedModel {
    match rest {
        ParsedModel::Help => ParsedModel::Help,
        ParsedModel::Invocation { cutoff, forwarded } => ParsedModel::Invocation {
            cutoff,
            forwarded: seq![t] + forwarded,
        },
    }
}

/// The meaning of `args[i..]`, read as options.
///
/// `--cutoff` takes the next token as its value, whatever that token is; a
/// `--cutoff` with no token after it is ignored. `--help` stops everything.
/// `--` forwards every token after it as it is. Any other token is forwarded.
pub open spec fn parse_from(args: Seq<Seq<char>>, i: int) -> ParsedModel
    decreases args.len() - i,
{
    if i < 0 || i >= args.len() {
        ParsedModel::Invocation { cutoff: None, forwarded: seq![] }
    } else if args[i] == cutoff_flag() {
        if i + 1 < args.len() {
            after_cutoff(args[i + 1], parse_from(args, i + 2))
        } else {
            ParsedModel::Invocation { cutoff: None, forwarded: seq![] }
        }
    } else if args[i] == help_flag() {
        ParsedModel::Help
    } else if args[i] == separator() {
        ParsedModel::Invocation { cutoff: None, forwarded: args.subrange(i + 1, args.len() as int) }
    } else {
        after_forwarded(args[i], parse_from(args, i + 1))
    }
}

/// The meaning of a whole command line (without the program's name).
pub open spec fn parse(args: Seq<Seq<char>>) -> ParsedModel {
    parse_from(args, 0)
}

/// `rest` as seen after a prefix that set the cutoff `earlier` (if any) and
/// forwarded `before`.
pub open spec fn resume(
    earlier: Option<Seq<char>>,
    before: Seq<Seq<char>>,
    rest: ParsedModel,
) -> ParsedModel {
    match rest {
        ParsedModel::Help => ParsedModel::Help,
        ParsedModel::Invocation { cutoff, forwarded } => ParsedModel::Invocation {
            cutoff: if cutoff is Some {
                cutoff
            } else {
                earlier
            },
            forwarded: before + forwarded,
        },
    }
}

proof fn lemma_resume_forwarded(
    earlier: Option<Seq<char>>,
    before: Seq<Seq<char>>,
    t: Seq<char>,
    rest: ParsedModel,
)
    ensures
        resume(earlier, before, after_forwarded(t, rest)) == resume(earlier, before + seq![t], rest),
{
    if let ParsedModel::Invocation { cutoff, forwarded } = rest {
        assert(before + (seq![t] + forwarded) =~= (before + seq![t]) + forwarded);
    }
}

/// A parsed command line.
#[derive(Clone, Debug, PartialEq, Eq)]
pub enum ParsedArgs {
    /// `--help` was given: print the usage text and succeed.
    Help,
    /// Go on, with an optional cutoff and the arguments for `cargo update`.
    Invocation { cutoff: Option<String>, forwarded: Vec<String> },
}

/// The characters of an optional argument.
pub open spec fn opt_view(o: Option<String>) -> Option<Seq<char>> {
    match o {
        Some(s) => Some(s@),
        None => None,
    }
}

impl View for ParsedArgs {
    type V = ParsedModel;

    open spec fn view(&self) -> ParsedModel {
        match self {
            ParsedArgs::Help => ParsedModel::Help,
            ParsedArgs::Invocation { cutoff, forwarded } => ParsedModel::Invocation {
                cutoff: opt_view(*cutoff),
                forwarded: tokens(forwarded@),
            },
        }
    }
}

/// Parses the command line, given without the program's name.
pub fn parse_args(args: &Vec<String>) -> (r: ParsedArgs)
    ensures
        r@ == parse(tokens(args@)),
{
    let cutoff_tok = String::from_str("--cutoff");
    let help_tok = String::from_str("--help");
    let separator_tok = String::from_str("--");
    proof {
        reveal_strlit("--cutoff");
        reveal_strlit("--help");
        reveal_strlit("--");
        assert(cutoff_tok@ =~= cutoff_flag());
        assert(help_tok@ =~= help_flag());
        assert(separator_tok@ =~= separator());
    }
    let ghost a = tokens(args@);
    let n = args.len();
    let mut cutoff: Option<String> = None;
    let mut forwarded: Vec<String> = Vec::new();
    let mut i: usize = 0;
    while i < n
        invariant
            n == args.len(),
            a == tokens(args@),
            i <= n,
            cutoff_tok@ == cutoff_flag(),
            help_tok@ == help_flag(),
            separator_tok@ == separator(),
            parse(a) == resume(opt_view(cutoff), tokens(forwarded@), parse_from(a, i as int)),
        decreases n - i,
    {
        let t = &args[i];
        assert(t@ == a[i as int]);
        if *t == cutoff_tok {
            if i + 1 < n {
                cutoff = Some(args[i + 1].clone());
                i = i + 2;
            } else {
                i = n;
            }
        } else if *t == help_tok {
            return ParsedArgs::Help;
        } else if *t == separator_tok {
            let ghost before = tokens(forwarded@);
            let mut j: usize = i + 1;
            while j < n
                invariant
                    n == args.len(),
                    a == tokens(args@),
                    i < j <= n,
                    tokens(forwarded@) == before + a.subrange(i + 1, j as int),
                decreases n - j,
            {
                assert(a[j as int] == args@[j as int]@);
                let ghost prev = tokens(forwarded@);
                forwarded.push(args[j].clone());
                proof {
                    assert(tokens(forwarded@) =~= prev + seq![a[j as int]]);
                    assert(a.subrange(i + 1, j + 1) =~= a.subrange(i + 1, j as int) + seq![
                        a[j as int],
                    ]);
                    assert(tokens(forwarded@) =~= before + a.subrange(i + 1, j + 1));
                }
                j = j + 1;
            }
            assert(a.subrange(i + 1, n as int) =~= a.subrange(i + 1, j as int));
            return ParsedArgs::Invocation { cutoff, forwarded };
        } else {
            let ghost before = tokens(forwarded@);
            forwarded.push(t.clone());
            proof {
                assert(tokens(forwarded@) =~= before + seq![a[i as int]]);
                lemma_resume_forwarded(opt_view(cutoff), before, a[i as int], parse_from(a, i + 1));
            }
            i = i + 1;
        }
    }
    ParsedArgs::Invocation { cutoff, forwarded }
}

/// Whether `args[i]` is read as the value of a `--cutoff` before it, when
/// every token before it is read as an option.
pub open spec fn is_cutoff_value(args: Seq<Seq<char>>, i: int) -> bool
    decreases i,
{
    if 0 < i < args.len() {
        args[i - 1] == cutoff_flag() && !is_cutoff_value(args, i - 1)
    } else {
        false
    }
}

proof fn lemma_help_reached(args: Seq<Seq<char>>, i: int, k: int)
    requires
        0 <= k <= i < args.len(),
        args[i] == help_flag(),
        !is_cutoff_value(args, i),
        !is_cutoff_value(args, k),
        forall|j: int| 0 <= j < i && args[j] == separator() ==> is_cutoff_value(args, j),
    ensures
        parse_from(args, k) == ParsedModel::Help,
    decreases i - k,
{
    if args[k] == cutoff_flag() {
        assert(is_cutoff_value(args, k + 1));
        assert(!is_cutoff_value(args, k + 2));
        lemma_help_reached(args, i, k + 2);
    } else if args[k] == help_flag() {
    } else if args[k] == separator() {
        assert(help_flag() != separator()) by {
            assert(help_flag().len() != separator().len());
        }
    } else {
        lemma_help_reached(args, i, k + 1);
    }
}

/// A `--help` that is read as an option, that is one not taken as the value
/// of a `--cutoff` and with no `--` before it that is read as an option,
/// makes the whole command line a request for help, whatever else it holds.
pub proof fn lemma_help_short_circuits(args: Seq<Seq<char>>, i: int)
    requires
        0 <= i < args.len(),
        args[i] == help_flag(),
        !is_cutoff_value(args, i),
        forall|j: int| 0 <= j < i && args[j] == separator() ==> is_cutoff_value(args, j),
    ensures
        parse(args) == ParsedModel::Help,
{
    lemma_help_reached(args, i, 0);
}

proof fn lemma_parse_shift(x: Seq<Seq<char>>, y: Seq<Seq<char>>, d: int, j: int)
    requires
        0 <= d <= x.len(),
        0 <= j,
        x.subrange(d, x.len() as int) == y,
    ensures
        parse_from(x, d + j) == parse_from(y, j),
    decreases y.len() - j,
{
    if j < y.len() {
        assert(x[d + j] == y[j]);
        if y[j] == cutoff_flag() {
            if j + 1 < y.len() {
                assert(x[d + j + 1] == y[j + 1]);
                lemma_parse_shift(x, y, d, j + 2);
            }
        } else if y[j] == help_flag() {
        } else if y[j] == separator() {
            assert(x.subrange(d + j + 1, x.len() as int) =~= y.subrange(j + 1, y.len() as int));
        } else {
            lemma_parse_shift(x, y, d, j + 1);
        }
    }
}

proof fn lemma_plain_run(pre: Seq<Seq<char>>, post: Seq<Seq<char>>, k: int)
    requires
        0 <= k <= pre.len(),
        forall|j: int| 0 <= j < pre.len() ==> !is_control_token(#[trigger] pre[j]),
    ensures
        parse_from(pre + post, k) == resume(
            None,
            pre.subrange(k, pre.len() as int),
            parse_from(pre + post, pre.len() as int),
        ),
    decreases pre.len() - k,
{
    let a = pre + post;
    let rest = parse_from(a, pre.len() as int);
    if k == pre.len() {
        if let ParsedModel::Invocation { cutoff, forwarded } = rest {
            assert(pre.subrange(k, k) + forwarded =~= forwarded);
        }
    } else {
        assert(a[k] == pre[k]);
        assert(!is_control_token(pre[k]));
        lemma_plain_run(pre, post, k + 1);
        if let ParsedModel::Invocation { cutoff, forwarded } = rest {
            assert(seq![pre[k]] + (pre.subrange(k + 1, pre.len() as int) + forwarded)
                =~= pre.subrange(k, pre.len() as int) + forwarded);
        }
    }
}

/// Tokens that mean nothing to the parser are forwarded as they are and in
/// their order: a command line that starts with such tokens forwards them
/// first, and means otherwise what the rest means on its own.
pub proof fn lemma_plain_tokens_forwarded(pre: Seq<Seq<char>>, post: Seq<Seq<char>>)
    requires
        forall|j: int| 0 <= j < pre.len() ==> !is_control_token(#[trigger] pre[j]),
    ensures
        parse(pre + post) == resume(None, pre, parse(post)),
{
    lemma_plain_run(pre, post, 0);
    assert((pre + post).subrange(pre.len() as int, (pre + post).len() as int) =~= post);
    lemma_parse_shift(pre + post, post, pre.len() as int, 0);
    assert(pre.subrange(0, pre.len() as int) =~= pre);
}

proof fn lemma_no_cutoff_from(args: Seq<Seq<char>>, k: int)
    requires
        0 <= k,
        forall|j: int| 0 <= j < args.len() ==> #[trigger] args[j] != cutoff_flag(),
        forall|j: int|
            0 <= j < args.len() && #[trigger] args[j] == help_flag() ==> exists|s: int|
                0 <= s < j && args[s] == separator(),
        forall|s: int| 0 <= s < k && s < args.len() ==> args[s] != separator(),
    ensures
        parse_from(args, k) is Invocation,
        parse_from(args, k)->cutoff is None,
    decreases args.len() - k,
{
    if k < args.len() {
        if args[k] == help_flag() {
            let s = choose|s: int| 0 <= s < k && args[s] == separator();
        } else if args[k] != separator() {
            lemma_no_cutoff_from(args, k + 1);
        }
    }
}

/// A command line without `--cutoff`, and without a `--help` read as an
/// option (one before any `--`), parses to an invocation with no cutoff.
pub proof fn lemma_no_cutoff_parsed(args: Seq<Seq<char>>)
    requires
        forall|j: int| 0 <= j < args.len() ==> #[trigger] args[j] != cutoff_flag(),
        forall|j: int|
            0 <= j < args.len() && #[trigger] args[j] == help_flag() ==> exists|s: int|
                0 <= s < j && args[s] == separator(),
    ensures
        parse(args) is Invocation,
        parse(args)->cutoff is None,
{
    lemma_no_cutoff_from(args, 0);
}

} // verus!
