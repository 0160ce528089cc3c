//! The option scanner of the command line: long options with a value
//! (`--name value` or `--name=value`), flags (`--name`), positionals, and `--`.
use vstd::prelude::*;
use crate::ordered::views;
use crate::text::{chars_of, spec_parse_uint, parse_uint, str_eq, string_of, to_owned_string};

verus! {

/// What an option takes.
#[derive(Debug, Clone, Copy, PartialEq, Eq, Structural)]
pub enum ValueKind {
    /// Any text, empty included.
    Text,
    /// A path: any non-empty text.
    Path,
    /// A `usize`.
    Count,
    /// A `u64`.
    Number,
    /// A `u64` of at least 1.
    Interval,
    /// No value: the option is a flag.
    Flag,
}

/// Kinds of command-line errors.
#[derive(Debug, Clone, Copy, PartialEq, Eq, Structural)]
pub enum CliErrorKind {
    /// Help was asked for.
    Help,
    /// No subcommand was given.
    MissingSubcommand,
    /// The subcommand is not known.
    UnknownSubcommand,
    /// An argument that the command does not take.
    Unexpected,
    /// An option given twice.
    Duplicate,
    /// A value given to a flag.
    UnexpectedValue,
    /// An option without its value.
    MissingValue,
    /// A value that the option does not accept.
    InvalidValue,
    /// A required argument that was not given.
    MissingRequired,
}

/// A command-line error: its kind and the argument it is about.
#[derive(Debug, Clone)]
pub struct CliError {
    pub kind: CliErrorKind,
    pub arg: String,
}

impl CliError {
    pub open spec fn view(&self) -> (CliErrorKind, Seq<char>) {
        (self.kind, self.arg@)
    }

    pub open spec fn spec_message(&self) -> Seq<char> {
        match self.kind {
            CliErrorKind::Help => "help requested"@,
            CliErrorKind::MissingSubcommand => "a subcommand is required"@,
            CliErrorKind::UnknownSubcommand => "unrecognized subcommand '"@ + self.arg@ + "'"@,
            CliErrorKind::Unexpected => "unexpected argument '"@ + self.arg@ + "' found"@,
            CliErrorKind::Duplicate => "the argument '--"@ + self.arg@ + "' cannot be used multiple times"@,
            CliErrorKind::UnexpectedValue => "unexpected value for '--"@ + self.arg@ + "'; no value is taken"@,
            CliErrorKind::MissingValue => "a value is required for '--"@ + self.arg@ + "' but none was supplied"@,
            CliErrorKind::InvalidValue => "invalid value for '--"@ + self.arg@ + "'"@,
            CliErrorKind::MissingRequired => "the following required argument was not provided: "@ + self.arg@,
        }
    }

    /// The error as the text a user sees.
    pub fn message(&self) -> (out: String)
        ensures
            out@ == self.spec_message(),
    {
        let (lead, tail): (&str, &str) = match self.kind {
            CliErrorKind::Help => return to_owned_string("help requested"),
            CliErrorKind::MissingSubcommand => return to_owned_string("a subcommand is required"),
            CliErrorKind::UnknownSubcommand => ("unrecognized subcommand '", "'"),
            CliErrorKind::Unexpected => ("unexpected argument '", "' found"),
            CliErrorKind::Duplicate => ("the argument '--", "' cannot be used multiple times"),
            CliErrorKind::UnexpectedValue => ("unexpected value for '--", "'; no value is taken"),
            CliErrorKind::MissingValue => ("a value is required for '--", "' but none was supplied"),
            CliErrorKind::InvalidValue => ("invalid value for '--", "'"),
            CliErrorKind::MissingRequired => ("the following required argument was not provided: ", ""),
        };
        let mut out = to_owned_string(lead);
        out.append(self.arg.as_str());
        out.append(tail);
        proof {
            if self.kind == CliErrorKind::MissingRequired {
                reveal_strlit("");
                assert(out@ =~= self.spec_message());
            }
        }
        out
    }
}

/// A declared option: its long name (without `--`) and what it takes.
pub type DeclView = (Seq<char>, ValueKind);

/// The scanner's result: one slot per declared option (`None` when it was
/// not given; `"true"` for a given flag), and the positionals in order.
pub type ScanView = (Seq<Option<Seq<char>>>, Seq<Seq<char>>);

/// A token that looks like an option: a `-` followed by something.
pub open spec fn is_dashed(t: Seq<char>) -> bool {
    t.len() > 1 && t[0] == '-'
}

/// A token that starts with `--`.
pub open spec fn is_long(t: Seq<char>) -> bool {
    t.len() > 1 && t[0] == '-' && t[1] == '-'
}

/// The index of the first `=` in `s`, or -1.
pub open spec fn first_eq(s: Seq<char>) -> int
    decreases s.len(),
{
    if s.len() == 0 {
        -1
    } else if s[0] == '=' {
        0
    } else if first_eq(s.drop_first()) < 0 {
        -1
    } else {
        first_eq(s.drop_first()) + 1
    }
}

/// The option name in the text after `--`: up to the first `=`.
pub open spec fn option_key(body: Seq<char>) -> Seq<char> {
    if first_eq(body) < 0 { body } else { body.take(first_eq(body)) }
}

/// The value written after the first `=`, if any.
pub open spec fn inline_value(body: Seq<char>) -> Option<Seq<char>> {
    if first_eq(body) < 0 { None } else { Some(body.skip(first_eq(body) + 1)) }
}

/// The place of the option named `key`, or -1.
pub open spec fn find_decl(decls: Seq<DeclView>, key: Seq<char>) -> int
    decreases decls.len(),
{
    if decls.len() == 0 {
        -1
    } else if find_decl(decls.drop_last(), key) >= 0 {
        find_decl(decls.drop_last(), key)
    } else if decls.last().0 == key {
        decls.len() - 1
    } else {
        -1
    }
}

/// Whether an option of the given kind accepts the value.
pub open spec fn valid_value(kind: ValueKind, v: Seq<char>) -> bool {
    match kind {
        ValueKind::Text => true,
        ValueKind::Path => v.len() > 0,
        ValueKind::Count => spec_parse_uint(v, usize::MAX as nat) is Some,
        ValueKind::Number => spec_parse_uint(v, u64::MAX as nat) is Some,
        ValueKind::Interval => spec_parse_uint(v, u64::MAX as nat) is Some
            && spec_parse_uint(v, u64::MAX as nat)->Some_0 >= 1,
        ValueKind::Flag => true,
    }
}

/// Scans tokens against the declared options, as the command line is read:
/// each option at most once, each value checked when it is read, at most
/// `max_pos` positionals, and everything after `--` positional.
pub open spec fn scan(
    tokens: Seq<Seq<char>>,
    decls: Seq<DeclView>,
    values: Seq<Option<Seq<char>>>,
    pos: Seq<Seq<char>>,
    max_pos: nat,
    only_pos: bool,
) -> Result<ScanView, (CliErrorKind, Seq<char>)>
    decreases tokens.len(),
{
    if tokens.len() == 0 {
        Ok((values, pos))
    } else {
        let t = tokens[0];
        let rest = tokens.drop_first();
        if only_pos || !is_dashed(t) {
            if pos.len() >= max_pos {
                Err((CliErrorKind::Unexpected, t))
            } else {
                scan(rest, decls, values, pos.push(t), max_pos, only_pos)
            }
        } else if t == "--"@ {
            scan(rest, decls, values, pos, max_pos, true)
        } else if t == "-h"@ || t == "--help"@ {
            Err((CliErrorKind::Help, t))
        } else if !is_long(t) {
            Err((CliErrorKind::Unexpected, t))
        } else {
            let body = t.skip(2);
            let key = option_key(body);
            let k = find_decl(decls, key);
            if k < 0 || k >= values.len() {
                Err((CliErrorKind::Unexpected, t))
            } else if values[k] is Some {
                Err((CliErrorKind::Duplicate, key))
            } else if decls[k].1 == ValueKind::Flag {
                if inline_value(body) is Some {
                    Err((CliErrorKind::UnexpectedValue, key))
                } else {
                    scan(rest, decls, values.update(k, Some("true"@)), pos, max_pos, only_pos)
                }
            } else {
                match inline_value(body) {
                    Some(v) => if valid_value(decls[k].1, v) {
                        scan(rest, decls, values.update(k, Some(v)), pos, max_pos, only_pos)
                    } else {
                        Err((CliErrorKind::InvalidValue, key))
                    },
                    None => if rest.len() == 0 || is_dashed(rest[0]) {
                        Err((CliErrorKind::MissingValue, key))
                    } else if valid_value(decls[k].1, rest[0]) {
                        scan(rest.drop_first(), decls, values.update(k, Some(rest[0])), pos, max_pos, only_pos)
                    } else {
                        Err((CliErrorKind::InvalidValue, key))
                    },
                }
            }
        }
    }
}

/// Every given value is one that its option accepts.
pub open spec fn values_valid(decls: Seq<DeclView>, values: Seq<Option<Seq<char>>>) -> bool {
    &&& values.len() == decls.len()
    &&& forall|k: int| 0 <= k < values.len() && #[trigger] values[k] is Some ==> valid_value(decls[k].1, values[k]->Some_0)
}

proof fn lemma_find_decl(decls: Seq<DeclView>, key: Seq<char>)
    ensures
        -1 <= find_decl(decls, key) < decls.len(),
        find_decl(decls, key) >= 0 ==> decls[find_decl(decls, key)].0 == key,
        find_decl(decls, key) < 0 ==> forall|i: int| 0 <= i < decls.len() ==> #[trigger] decls[i].0 != key,
        find_decl(decls, key) >= 0 ==> forall|i: int| 0 <= i < find_decl(decls, key) ==> #[trigger] decls[i].0 != key,
    decreases decls.len(),
{
    if decls.len() > 0 {
        lemma_find_decl(decls.drop_last(), key);
        assert forall|i: int| 0 <= i < decls.len() - 1 implies #[trigger] decls[i] == decls.drop_last()[i] by {}
    }
}

/// A successful scan only records values that their options accept, and
/// never more positionals than allowed.
pub proof fn lemma_scan_valid(
    tokens: Seq<Seq<char>>,
    decls: Seq<DeclView>,
    values: Seq<Option<Seq<char>>>,
    pos: Seq<Seq<char>>,
    max_pos: nat,
    only_pos: bool,
)
    requires
        values_valid(decls, values),
        pos.len() <= max_pos,
    ensures
        scan(tokens, decls, values, pos, max_pos, only_pos) matches Ok((v, p))
            ==> values_valid(decls, v) && p.len() <= max_pos,
    decreases tokens.len(),
{
    if tokens.len() > 0 {
        let t = tokens[0];
        let rest = tokens.drop_first();
        if only_pos || !is_dashed(t) {
            if pos.len() < max_pos {
                lemma_scan_valid(rest, decls, values, pos.push(t), max_pos, only_pos);
            }
        } else if t == "--"@ {
            lemma_scan_valid(rest, decls, values, pos, max_pos, true);
        } else if !(t == "-h"@ || t == "--help"@) && is_long(t) {
            let body = t.skip(2);
            let key = option_key(body);
            let k = find_decl(decls, key);
            if 0 <= k < values.len() && values[k] is None {
                if decls[k].1 == ValueKind::Flag {
                    let nv = values.update(k, Some("true"@));
                    assert(values_valid(decls, nv));
                    lemma_scan_valid(rest, decls, nv, pos, max_pos, only_pos);
                } else {
                    match inline_value(body) {
                        Some(v) => {
                            let nv = values.update(k, Some(v));
                            if valid_value(decls[k].1, v) {
                                assert(values_valid(decls, nv));
                                lemma_scan_valid(rest, decls, nv, pos, max_pos, only_pos);
                            }
                        },
                        None => {
                            if rest.len() > 0 && !is_dashed(rest[0]) && valid_value(decls[k].1, rest[0]) {
                                let nv = values.update(k, Some(rest[0]));
                                assert(values_valid(decls, nv));
                                lemma_scan_valid(rest.drop_first(), decls, nv, pos, max_pos, only_pos);
                            }
                        },
                    }
                }
            }
        }
    }
}

/// The characters of the arguments.
pub open spec fn arg_views(args: Seq<&str>) -> Seq<Seq<char>> {
    args.map_values(|a: &str| a@)
}

/// The declared options as plain values.
pub open spec fn decl_views(decls: Seq<(&'static str, ValueKind)>) -> Seq<DeclView> {
    decls.map_values(|d: (&'static str, ValueKind)| (d.0@, d.1))
}

/// Optional strings as optional character sequences.
pub open spec fn opt_views(v: Seq<Option<String>>) -> Seq<Option<Seq<char>>> {
    v.map_values(|o: Option<String>| match o {
        Some(s) => Some(s@),
        None => None,
    })
}

/// No option given yet.
pub open spec fn nones(n: nat) -> Seq<Option<Seq<char>>> {
    Seq::new(n, |i: int| None)
}

/// Whether the token looks like an option.
fn dashed(t: &str) -> (r: bool)
    ensures
        r == is_dashed(t@),
{
    let cs = chars_of(t);
    cs.len() > 1 && cs[0] == '-'
}

pub proof fn lemma_first_eq(s: Seq<char>, j: int)
    requires
        0 <= j <= s.len(),
        forall|k: int| 0 <= k < j ==> #[trigger] s[k] != '=',
        j == s.len() || s[j] == '=',
    ensures
        first_eq(s) == (if j == s.len() { -1 } else { j }),
    decreases j,
{
    if j > 0 {
        let t = s.drop_first();
        assert forall|k: int| 0 <= k < j - 1 implies #[trigger] t[k] != '=' by {
            assert(t[k] == s[k + 1]);
        }
        lemma_first_eq(t, j - 1);
    }
}

/// Splits the text after `--` into the option name and the value written
/// after `=`, if any.
fn split_option(body: &Vec<char>) -> (r: (String, Option<String>))
    ensures
        r.0@ == option_key(body@),
        match r.1 {
            Some(v) => inline_value(body@) == Some(v@),
            None => inline_value(body@) is None,
        },
{
    let mut j: usize = 0;
    while j < body.len() && body[j] != '='
        invariant
            j <= body@.len(),
            forall|k: int| 0 <= k < j ==> #[trigger] body@[k] != '=',
        decreases body@.len() - j,
    {
        j += 1;
    }
    proof {
        lemma_first_eq(body@, j as int);
    }
    if j == body.len() {
        (string_of(body.as_slice()), None)
    } else {
        let key = string_of(&body.as_slice()[0..j]);
        let v = string_of(&body.as_slice()[j + 1..body.len()]);
        assert(key@ =~= body@.take(j as int));
        assert(v@ =~= body@.skip(j + 1));
        (key, Some(v))
    }
}

/// The place of the option named `key`, if declared.
fn find_option(decls: &Vec<(&'static str, ValueKind)>, key: &str) -> (r: Option<usize>)
    ensures
        match r {
            Some(k) => k < decls@.len() && k as int == find_decl(decl_views(decls@), key@),
            None => find_decl(decl_views(decls@), key@) < 0,
        },
{
    let ghost dv = decl_views(decls@);
    let mut i: usize = 0;
    while i < decls.len()
        invariant
            dv == decl_views(decls@),
            i <= decls@.len(),
            forall|k: int| 0 <= k < i ==> #[trigger] dv[k].0 != key@,
        decreases decls@.len() - i,
    {
        if str_eq(decls[i].0, key) {
            proof {
                lemma_find_decl(dv, key@);
                let f = find_decl(dv, key@);
                if f < 0 || f > i {
                    assert(dv[i as int].0 == key@);
                }
                if f >= 0 && f < i {
                    assert(dv[f].0 == key@);
                }
            }
            return Some(i);
        }
        i += 1;
    }
    proof {
        lemma_find_decl(dv, key@);
        let f = find_decl(dv, key@);
        if f >= 0 {
            assert(dv[f].0 == key@);
        }
    }
    None
}

/// Whether an option of the given kind accepts the value.
pub fn value_ok(kind: ValueKind, v: &str) -> (r: bool)
    ensures
        r == valid_value(kind, v@),
{
    match kind {
        ValueKind::Text => true,
        ValueKind::Path => !v.is_empty(),
        ValueKind::Count => parse_uint(v, usize::MAX as u64).is_some(),
        ValueKind::Number => parse_uint(v, u64::MAX).is_some(),
        ValueKind::Interval => match parse_uint(v, u64::MAX) {
            Some(n) => n >= 1,
            None => false,
        },
        ValueKind::Flag => true,
    }
}

/// Scans `args[start..]` against the declared options.
pub fn scan_options(args: &[&str], start: usize, decls: &Vec<(&'static str, ValueKind)>, max_pos: usize) -> (r: Result<(Vec<Option<String>>, Vec<String>), CliError>)
    requires
        start <= args@.len(),
    ensures
        match r {
            Ok(res) => scan(arg_views(args@).skip(start as int), decl_views(decls@), nones(decls@.len()), seq![], max_pos as nat, false)
                == Ok::<ScanView, (CliErrorKind, Seq<char>)>((opt_views(res.0@), views(res.1@))),
            Err(e) => scan(arg_views(args@).skip(start as int), decl_views(decls@), nones(decls@.len()), seq![], max_pos as nat, false)
                == Err::<ScanView, (CliErrorKind, Seq<char>)>(e.view()),
        },
{
    let ghost toks = arg_views(args@);
    let ghost dv = decl_views(decls@);
    let ghost goal = scan(toks.skip(start as int), dv, nones(decls@.len()), seq![], max_pos as nat, false);
    let mut values: Vec<Option<String>> = Vec::new();
    let mut d: usize = 0;
    while d < decls.len()
        invariant
            d <= decls@.len(),
            values@.len() == d,
            forall|k: int| 0 <= k < d ==> #[trigger] values@[k] is None,
        decreases decls@.len() - d,
    {
        values.push(None);
        d += 1;
    }
    assert(opt_views(values@) =~= nones(decls@.len()));
    let mut pos: Vec<String> = Vec::new();
    let mut only_pos = false;
    let mut i: usize = start;
    assert(views(pos@) =~= seq![]);
    while i < args.len()
        invariant
            toks == arg_views(args@),
            dv == decl_views(decls@),
            start <= i <= args@.len(),
            values@.len() == decls@.len(),
            opt_views(values@).len() == dv.len(),
            goal == scan(toks.skip(start as int), dv, nones(decls@.len()), seq![], max_pos as nat, false),
            goal == scan(toks.skip(i as int), dv, opt_views(values@), views(pos@), max_pos as nat, only_pos),
        decreases args@.len() - i,
    {
        let t = args[i];
        let ghost ts = toks.skip(i as int);
        proof {
            assert(ts[0] == t@);
            assert(ts.drop_first() =~= toks.skip(i + 1));
            reveal_strlit("--");
            reveal_strlit("-h");
            reveal_strlit("--help");
            reveal_strlit("true");
        }
        if only_pos || !dashed(t) {
            if pos.len() >= max_pos {
                return Err(CliError { kind: CliErrorKind::Unexpected, arg: to_owned_string(t) });
            }
            let ghost before = pos@;
            pos.push(to_owned_string(t));
            assert(views(pos@) =~= views(before).push(t@));
            i += 1;
        } else if str_eq(t, "--") {
            only_pos = true;
            i += 1;
        } else if str_eq(t, "-h") || str_eq(t, "--help") {
            return Err(CliError { kind: CliErrorKind::Help, arg: to_owned_string(t) });
        } else {
            let cs = chars_of(t);
            if !(cs[1] == '-') {
                return Err(CliError { kind: CliErrorKind::Unexpected, arg: to_owned_string(t) });
            }
            let mut body: Vec<char> = Vec::new();
            let mut c: usize = 2;
            while c < cs.len()
                invariant
                    2 <= c <= cs@.len(),
                    cs@ == t@,
                    body@ == cs@.subrange(2, c as int),
                decreases cs@.len() - c,
            {
                body.push(cs[c]);
                assert(cs@.subrange(2, c as int).push(cs@[c as int]) =~= cs@.subrange(2, c + 1));
                c += 1;
            }
            assert(body@ =~= t@.skip(2));
            let (key, inline) = split_option(&body);
            let k = match find_option(decls, key.as_str()) {
                Some(k) => k,
                None => return Err(CliError { kind: CliErrorKind::Unexpected, arg: to_owned_string(t) }),
            };
            if values[k].is_some() {
                return Err(CliError { kind: CliErrorKind::Duplicate, arg: key });
            }
            let kind = decls[k].1;
            assert(dv[k as int].1 == kind);
            if kind == ValueKind::Flag {
                if inline.is_some() {
                    return Err(CliError { kind: CliErrorKind::UnexpectedValue, arg: key });
                }
                let ghost before = values@;
                values[k] = Some(to_owned_string("true"));
                assert(opt_views(values@) =~= opt_views(before).update(k as int, Some("true"@)));
                i += 1;
            } else {
                match inline {
                    Some(v) => {
                        if !value_ok(kind, v.as_str()) {
                            return Err(CliError { kind: CliErrorKind::InvalidValue, arg: key });
                        }
                        let ghost before = values@;
                        let ghost vv = v@;
                        values[k] = Some(v);
                        assert(opt_views(values@) =~= opt_views(before).update(k as int, Some(vv)));
                        i += 1;
                    },
                    None => {
                        if i + 1 >= args.len() || dashed(args[i + 1]) {
                            proof {
                                if i + 1 < args@.len() {
                                    assert(ts.drop_first()[0] == args@[i + 1]@);
                                }
                            }
                            return Err(CliError { kind: CliErrorKind::MissingValue, arg: key });
                        }
                        let v = args[i + 1];
                        proof {
                            assert(ts.drop_first()[0] == v@);
                            assert(ts.drop_first().drop_first() =~= toks.skip(i + 2));
                        }
                        if !value_ok(kind, v) {
                            return Err(CliError { kind: CliErrorKind::InvalidValue, arg: key });
                        }
                        let ghost before = values@;
                        values[k] = Some(to_owned_string(v));
                        assert(opt_views(values@) =~= opt_views(before).update(k as int, Some(v@)));
                        i += 2;
                    },
                }
            }
        }
    }
    assert(toks.skip(i as int) =~= Seq::<Seq<char>>::empty());
    Ok((values, pos))
}

} // verus!
