//! The decisions of the demonstration program: what its arguments ask for,
//! and the summary it prints after a successful run.

use vstd::prelude::*;

use crate::text::{decimal, push_prefix, push_signed_decimal, same_text, signed_decimal};
use crate::trace::{first_appearances, step_layers, Trace};

verus! {

/// The settings of a run that the arguments ask for. `loss` is the text given
/// after the last `--loss`, if one was given; the program reads it as the loss
/// rate, and a missing or unreadable one as no loss.
#[derive(Debug, Clone)]
pub struct DemoSettings {
    pub seed: u64,
    pub loss: Option<String>,
    pub chaos: bool,
}

/// What the arguments of the demonstration program ask for.
#[derive(Debug, Clone)]
pub enum DemoCommand {
    /// Run the operation with these settings.
    Run(DemoSettings),
    /// Print the usage.
    Help,
    /// This argument is not understood.
    Unknown(String),
}

/// The meaning of a command, over the characters of its texts.
pub enum CommandMeaning {
    Run { seed: u64, loss: Option<Seq<char>>, chaos: bool },
    Help,
    Unknown(Seq<char>),
}

impl View for DemoCommand {
    type V = CommandMeaning;

    open spec fn view(&self) -> CommandMeaning {
        match self {
            DemoCommand::Run(s) => CommandMeaning::Run {
                seed: s.seed,
                loss: match &s.loss {
                    Some(t) => Some(t@),
                    None => None,
                },
                chaos: s.chaos,
            },
            DemoCommand::Help => CommandMeaning::Help,
            DemoCommand::Unknown(a) => CommandMeaning::Unknown(a@),
        }
    }
}

/// A decimal digit.
pub open spec fn is_digit(c: char) -> bool {
    '0' <= c <= '9'
}

/// The number that a string of decimal digits denotes.
pub open spec fn digits_value(s: Seq<char>) -> nat
    decreases s.len(),
{
    if s.len() == 0 {
        0
    } else {
        digits_value(s.drop_last()) * 10 + (s.last() as nat - 48) as nat
    }
}

/// The digits of a number's text: what follows an optional leading `+`.
pub open spec fn unsigned_digits(s: Seq<char>) -> Seq<char> {
    if s.len() > 0 && s[0] == '+' {
        s.drop_first()
    } else {
        s
    }
}

/// The 64-bit unsigned number that `s` denotes: an optional `+`, then one
/// decimal digit or more, of value at most `u64::MAX`; `None` for any other
/// text.
pub open spec fn parsed_u64(s: Seq<char>) -> Option<u64> {
    if unsigned_digits(s).len() > 0 && all_digits(unsigned_digits(s)) && digits_value(
        unsigned_digits(s),
    ) <= u64::MAX {
        Some(digits_value(unsigned_digits(s)) as u64)
    } else {
        None
    }
}

/// Every character of `s` is a decimal digit.
pub open spec fn all_digits(s: Seq<char>) -> bool {
    forall|i: int| 0 <= i < s.len() ==> is_digit(#[trigger] s[i])
}

proof fn digits_value_grows(s: Seq<char>, n: int)
    requires
        0 <= n <= s.len(),
        forall|i: int| 0 <= i < s.len() ==> is_digit(#[trigger] s[i]),
    ensures
        digits_value(s.take(n)) <= digits_value(s),
    decreases s.len() - n,
{
    if n < s.len() {
        digits_value_grows(s, n + 1);
        assert(s.take(n + 1).drop_last() =~= s.take(n));
        assert(is_digit(s[n]));
    } else {
        assert(s.take(n) =~= s);
    }
}

/// Reads a 64-bit unsigned number written in decimal.
pub fn parse_u64(text: &str) -> (r: Option<u64>)
    ensures
        r == parsed_u64(text@),
{
    let len: usize = text.unicode_len();
    let mut start: usize = 0;
    if len > 0 && text.get_char(0) == '+' {
        start = 1;
    }
    let ghost d = unsigned_digits(text@);
    assert(d =~= text@.subrange(start as int, len as int));
    if start == len {
        return None;
    }
    let mut value: u64 = 0;
    let mut i: usize = start;
    while i < len
        invariant
            len == text@.len(),
            start <= i <= len,
            d == text@.subrange(start as int, len as int),
            d == unsigned_digits(text@),
            forall|k: int| 0 <= k < i - start ==> is_digit(#[trigger] d[k]),
            value == digits_value(d.take(i - start)),
        decreases len - i,
    {
        let c: char = text.get_char(i);
        assert(c == d[i - start]);
        if !('0' <= c && c <= '9') {
            assert(!is_digit(d[i - start]));
            assert(!all_digits(d));
            return None;
        }
        let digit: u64 = ((c as u32) - 48) as u64;
        assert(d.take(i - start + 1).drop_last() =~= d.take(i - start));
        assert(d.take(i - start + 1).last() == c);
        assert(digit == (c as nat - 48) as nat);
        assert(digits_value(d.take(i - start + 1)) == value * 10 + digit);
        if value > (u64::MAX - digit) / 10 {
            proof {
                assert(value * 10 + digit > u64::MAX) by (nonlinear_arith)
                    requires
                        value > (u64::MAX - digit) / 10,
                        digit <= 9,
                ;
                assert(digits_value(d.take(i - start + 1)) > u64::MAX);
                if all_digits(d) {
                    digits_value_grows(d, i - start + 1);
                }
            }
            return None;
        }
        assert(value * 10 + digit <= u64::MAX) by (nonlinear_arith)
            requires
                value <= (u64::MAX - digit) / 10,
                digit <= 9,
        ;
        value = value * 10 + digit;
        i = i + 1;
    }
    assert(d.take(len - start) =~= d);
    Some(value)
}

/// What the arguments `args` ask for, once the earlier ones have set `seed`,
/// `loss` and `chaos`: they are read in order; `--seed` takes the next
/// argument as the seed (1 when it is missing or not a number), `--loss` takes
/// the next as the loss text, `--chaos` turns chaos on, `-h` and `--help` ask
/// for the usage, and any other argument is not understood.
pub open spec fn scan(args: Seq<Seq<char>>, seed: u64, loss: Option<Seq<char>>, chaos: bool) -> CommandMeaning
    decreases args.len(),
{
    if args.len() == 0 {
        CommandMeaning::Run { seed, loss, chaos }
    } else if args[0] == "--seed"@ {
        if args.len() == 1 {
            scan(args.drop_first(), 1, loss, chaos)
        } else {
            let value = match parsed_u64(args[1]) {
                Some(n) => n,
                None => 1,
            };
            scan(args.subrange(2, args.len() as int), value, loss, chaos)
        }
    } else if args[0] == "--loss"@ {
        if args.len() == 1 {
            scan(args.drop_first(), seed, None, chaos)
        } else {
            scan(args.subrange(2, args.len() as int), seed, Some(args[1]), chaos)
        }
    } else if args[0] == "--chaos"@ {
        scan(args.drop_first(), seed, loss, true)
    } else if args[0] == "-h"@ || args[0] == "--help"@ {
        CommandMeaning::Help
    } else {
        CommandMeaning::Unknown(args[0])
    }
}

/// The texts of `args`.
pub open spec fn texts(args: Seq<String>) -> Seq<Seq<char>> {
    args.map_values(|a: String| a@)
}

/// Reads the arguments of the demonstration program (without the program's
/// own name); a run starts with seed 1, no loss and no chaos.
pub fn parse_args(args: &Vec<String>) -> (c: DemoCommand)
    ensures
        c@ == scan(texts(args@), 1, None, false),
{
    let ghost all = texts(args@);
    let mut seed: u64 = 1;
    let mut loss: Option<String> = None;
    let mut chaos: bool = false;
    let mut i: usize = 0;
    assert(all.subrange(0, all.len() as int) =~= all);
    while i < args.len()
        invariant
            i <= args@.len(),
            all == texts(args@),
            scan(all, 1, None, false) == scan(
                all.subrange(i as int, all.len() as int),
                seed,
                match &loss {
                    Some(t) => Some(t@),
                    None => None,
                },
                chaos,
            ),
        decreases args@.len() - i,
    {
        let ghost rest = all.subrange(i as int, all.len() as int);
        let ghost loss_view = match &loss {
            Some(t) => Some(t@),
            None => None::<Seq<char>>,
        };
        assert(rest[0] == args@[i as int]@);
        let a: &str = args[i].as_str();
        if same_text(a, "--seed") {
            if i + 1 < args.len() {
                assert(rest[1] == args@[i + 1]@);
                seed = match parse_u64(args[i + 1].as_str()) {
                    Some(n) => n,
                    None => 1,
                };
                assert(rest.subrange(2, rest.len() as int) =~= all.subrange(i + 2, all.len() as int));
                i = i + 2;
            } else {
                seed = 1;
                assert(rest.drop_first() =~= all.subrange(i + 1, all.len() as int));
                i = i + 1;
            }
        } else if same_text(a, "--loss") {
            if i + 1 < args.len() {
                assert(rest[1] == args@[i + 1]@);
                loss = Some(args[i + 1].clone());
                assert(rest.subrange(2, rest.len() as int) =~= all.subrange(i + 2, all.len() as int));
                i = i + 2;
            } else {
                loss = None;
                assert(rest.drop_first() =~= all.subrange(i + 1, all.len() as int));
                i = i + 1;
            }
        } else if same_text(a, "--chaos") {
            chaos = true;
            assert(rest.drop_first() =~= all.subrange(i + 1, all.len() as int));
            i = i + 1;
        } else if same_text(a, "-h") || same_text(a, "--help") {
            return DemoCommand::Help;
        } else {
            return DemoCommand::Unknown(args[i].clone());
        }
    }
    DemoCommand::Run(DemoSettings { seed, loss, chaos })
}

/// `parts`, with `sep` between each two.
pub open spec fn joined(parts: Seq<Seq<char>>, sep: Seq<char>) -> Seq<char>
    decreases parts.len(),
{
    if parts.len() == 0 {
        seq![]
    } else if parts.len() == 1 {
        parts[0]
    } else {
        joined(parts.drop_last(), sep) + sep + parts.last()
    }
}

/// The summary printed after a successful run: the layers that took part,
/// the result computed on both sides, and the release by the first twelve
/// characters of its commit.
pub open spec fn summary_text(layers: Seq<Seq<char>>, result: int, commit_hex: Seq<char>) -> Seq<
    char,
> {
    "\nOK: layers involved: "@ + joined(layers, ", "@) + "\nmain() = "@ + signed_decimal(result)
        + " on both sides; release "@ + commit_hex.take(12)
}

/// The summary of a successful run with trace `trace`, in which both sides
/// computed `result` and the release is the commit `commit_hex`.
pub fn summary(trace: &Trace, result: i64, commit_hex: &str) -> (s: String)
    requires
        commit_hex@.len() >= 12,
    ensures
        s@ == summary_text(first_appearances(step_layers(trace.steps@)), result as int, commit_hex@),
{
    let layers: Vec<&'static str> = trace.layers();
    let ghost names = layers@.map_values(|l: &'static str| l@);
    let mut s = String::new();
    s.append("\nOK: layers involved: ");
    let ghost start = s@;
    let mut i: usize = 0;
    while i < layers.len()
        invariant
            i <= layers@.len(),
            names == layers@.map_values(|l: &'static str| l@),
            s@ == start + joined(names.take(i as int), ", "@),
        decreases layers@.len() - i,
    {
        if i > 0 {
            s.append(", ");
        }
        s.append(layers[i]);
        proof {
            assert(names.take(i + 1).drop_last() =~= names.take(i as int));
            if i == 0 {
                assert(names.take(1) =~= seq![names[0]]);
            }
            assert(s@ =~= start + joined(names.take(i + 1), ", "@));
        }
        i = i + 1;
    }
    assert(names.take(layers@.len() as int) =~= names);
    s.append("\nmain() = ");
    push_signed_decimal(&mut s, result);
    s.append(" on both sides; release ");
    push_prefix(&mut s, commit_hex, 12);
    assert(s@ =~= summary_text(names, result as int, commit_hex@));
    s
}

/// The decimal notation of a number is read back as that number.
pub proof fn decimal_is_read_back(n: u64)
    ensures
        parsed_u64(decimal(n as nat)) == Some(n),
{
    decimal_digits(n as nat);
    assert(unsigned_digits(decimal(n as nat)) == decimal(n as nat));
}

proof fn decimal_digits(n: nat)
    ensures
        decimal(n).len() > 0,
        forall|i: int| 0 <= i < decimal(n).len() ==> is_digit(#[trigger] decimal(n)[i]),
        decimal(n)[0] != '+',
        digits_value(decimal(n)) == n,
    decreases n,
{
    if n < 10 {
        assert(decimal(n) =~= seq![(48 + n) as char]);
        assert(((48 + n) as char) as nat == 48 + n);
        assert(decimal(n).drop_last() =~= Seq::<char>::empty());
        assert(digits_value(Seq::<char>::empty()) == 0);
        assert(decimal(n).last() as nat == 48 + n);
        assert(digits_value(decimal(n)) == digits_value(decimal(n).drop_last()) * 10 + (decimal(n).last() as nat - 48) as nat);
    } else {
        decimal_digits(n / 10);
        let d = decimal(n);
        assert(d.drop_last() =~= decimal(n / 10));
        assert(d[0] == decimal(n / 10)[0]);
        assert forall|i: int| 0 <= i < d.len() implies is_digit(#[trigger] d[i]) by {
            if i < d.len() - 1 {
                assert(d[i] == decimal(n / 10)[i]);
            }
        }
    }
}

proof fn flag_texts_differ()
    ensures
        "--seed"@ != "--loss"@,
        "--seed"@ != "--chaos"@,
        "--loss"@ != "--chaos"@,
        "-h"@ != "--chaos"@,
        "--help"@ != "--chaos"@,
{
    reveal_strlit("--seed");
    reveal_strlit("--loss");
    reveal_strlit("--chaos");
    reveal_strlit("-h");
    reveal_strlit("--help");
    assert("--seed"@[2] != "--loss"@[2]);
    assert("--seed"@.len() != "--chaos"@.len());
    assert("--loss"@.len() != "--chaos"@.len());
    assert("-h"@.len() != "--chaos"@.len());
    assert("--help"@.len() != "--chaos"@.len());
}

/// Once chaos is on, no later argument turns it off: whenever the arguments
/// still to be read ask for a run, that run has chaos.
pub proof fn chaos_is_never_turned_off(args: Seq<Seq<char>>, seed: u64, loss: Option<Seq<char>>)
    ensures
        scan(args, seed, loss, true) matches CommandMeaning::Run { chaos, .. } ==> chaos,
    decreases args.len(),
{
    if args.len() > 0 {
        if args[0] == "--seed"@ || args[0] == "--loss"@ {
            if args.len() == 1 {
                chaos_is_never_turned_off(args.drop_first(), 1, loss);
                chaos_is_never_turned_off(args.drop_first(), seed, None);
            } else {
                let rest = args.subrange(2, args.len() as int);
                chaos_is_never_turned_off(
                    rest,
                    match parsed_u64(args[1]) {
                        Some(n) => n,
                        None => 1,
                    },
                    loss,
                );
                chaos_is_never_turned_off(rest, seed, Some(args[1]));
            }
        } else {
            chaos_is_never_turned_off(args.drop_first(), seed, loss);
        }
    }
}

/// A `--chaos` flag read as a flag turns chaos on for the run that the
/// arguments ask for, whatever follows it.
pub proof fn a_chaos_flag_turns_chaos_on(
    args: Seq<Seq<char>>,
    seed: u64,
    loss: Option<Seq<char>>,
    chaos: bool,
)
    requires
        args.len() > 0,
        args[0] == "--chaos"@,
    ensures
        scan(args, seed, loss, chaos) matches CommandMeaning::Run { chaos: c, .. } ==> c,
{
    flag_texts_differ();
    chaos_is_never_turned_off(args.drop_first(), seed, loss);
}

/// Reading `--seed N` changes only the seed: what the arguments after the
/// pair ask for is read with the loss and chaos that stood before it.
pub proof fn a_seed_changes_only_the_seed(
    value: Seq<char>,
    rest: Seq<Seq<char>>,
    seed: u64,
    loss: Option<Seq<char>>,
    chaos: bool,
)
    ensures
        exists|s: u64|
            scan(seq!["--seed"@, value] + rest, seed, loss, chaos) == #[trigger] scan(
                rest,
                s,
                loss,
                chaos,
            ),
{
    let args = seq!["--seed"@, value] + rest;
    assert(args[0] == "--seed"@);
    assert(args[1] == value);
    assert(args.subrange(2, args.len() as int) =~= rest);
    let s: u64 = match parsed_u64(value) {
        Some(n) => n,
        None => 1,
    };
    assert(scan(args, seed, loss, chaos) == scan(rest, s, loss, chaos));
}

/// Reading `--loss P` changes only the loss text, to `P`: what the arguments
/// after the pair ask for is read with the seed and chaos that stood before it.
pub proof fn a_loss_changes_only_the_loss(
    value: Seq<char>,
    rest: Seq<Seq<char>>,
    seed: u64,
    loss: Option<Seq<char>>,
    chaos: bool,
)
    ensures
        scan(seq!["--loss"@, value] + rest, seed, loss, chaos) == scan(
            rest,
            seed,
            Some(value),
            chaos,
        ),
{
    flag_texts_differ();
    let args = seq!["--loss"@, value] + rest;
    assert(args[0] == "--loss"@);
    assert(args[1] == value);
    assert(args.subrange(2, args.len() as int) =~= rest);
}

/// Joining splits at any point: the joined text of two non-empty lists, one
/// after the other, is the first's joined text, the separator, and the
/// second's joined text; so a separator stands between every two consecutive
/// parts.
pub proof fn joining_splits_at_any_point(a: Seq<Seq<char>>, b: Seq<Seq<char>>, sep: Seq<char>)
    requires
        a.len() > 0,
        b.len() > 0,
    ensures
        joined(a + b, sep) == joined(a, sep) + sep + joined(b, sep),
    decreases b.len(),
{
    let ab = a + b;
    if b.len() == 1 {
        assert(ab.drop_last() =~= a);
        assert(ab.last() == b[0]);
    } else {
        joining_splits_at_any_point(a, b.drop_last(), sep);
        assert(ab.drop_last() =~= a + b.drop_last());
        assert(ab.last() == b.last());
        assert(joined(ab, sep) =~= joined(a, sep) + sep + joined(b, sep));
    }
}

} // verus!
