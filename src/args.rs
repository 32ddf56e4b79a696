use vstd::prelude::*;
use crate::text::{lemma_views_push, matches_at, same_text, starts_with, views};

verus! {

/// The token that starts every flag, and alone separates the passthrough tail.
pub const SEPARATOR: &'static str = "--";

/// A flag that a command recognises.
#[derive(Clone, Debug)]
pub struct FlagSpec {
    pub name: String,
    /// A value-taking flag consumes the next token; a boolean one does not.
    pub takes_value: bool,
}

impl FlagSpec {
    /// A boolean flag.
    pub fn boolean(name: &str) -> (r: FlagSpec)
        ensures
            r.name@ == name@,
            !r.takes_value,
    {
        FlagSpec { name: String::from_str(name), takes_value: false }
    }

    /// A value-taking flag.
    pub fn valued(name: &str) -> (r: FlagSpec)
        ensures
            r.name@ == name@,
            r.takes_value,
    {
        FlagSpec { name: String::from_str(name), takes_value: true }
    }
}

/// Why an argument list was refused.
#[derive(Clone, Debug, PartialEq, Eq)]
pub enum ArgumentError {
    /// Fewer leading non-flag tokens than positional slots.
    MissingPositional,
    /// A value-taking flag was the last token.
    MissingValue(String),
    /// An unrecognised flag where unknown flags are refused.
    UnknownFlag(String),
}

/// The abstract form of `ArgumentError`.
pub enum ArgFault {
    MissingPositional,
    MissingValue(Seq<char>),
    UnknownFlag(Seq<char>),
}

impl ArgumentError {
    pub open spec fn fault(&self) -> ArgFault {
        match self {
            ArgumentError::MissingPositional => ArgFault::MissingPositional,
            ArgumentError::MissingValue(s) => ArgFault::MissingValue(s@),
            ArgumentError::UnknownFlag(s) => ArgFault::UnknownFlag(s@),
        }
    }
}

/// The abstract result of splitting: positional values, for each declared flag
/// whether it was seen and the values it was given in order, and the tokens
/// passed through.
#[verifier::ext_equal]
pub struct Parsed {
    pub pos: Seq<Seq<char>>,
    pub present: Seq<bool>,
    pub values: Seq<Seq<Seq<char>>>,
    pub rest: Seq<Seq<char>>,
}

/// A token that reads as a flag.
pub open spec fn is_flag(t: Seq<char>) -> bool {
    starts_with(t, SEPARATOR@)
}

/// The first index from `j` on at which `names` holds `t`, or -1.
pub open spec fn flag_index(names: Seq<Seq<char>>, t: Seq<char>, j: int) -> int
    decreases names.len() - j,
{
    if j < 0 || j >= names.len() {
        -1
    } else if names[j] == t {
        j
    } else {
        flag_index(names, t, j + 1)
    }
}

/// The declared names.
pub open spec fn names_of(flags: Seq<FlagSpec>) -> Seq<Seq<char>> {
    flags.map_values(|f: FlagSpec| f.name@)
}

/// Which declared flags take a value.
pub open spec fn takes_of(flags: Seq<FlagSpec>) -> Seq<bool> {
    flags.map_values(|f: FlagSpec| f.takes_value)
}

/// Records value `v` for flag `j`.
pub open spec fn add_value(st: Parsed, j: int, v: Seq<char>) -> Parsed {
    Parsed {
        present: st.present.update(j, true),
        values: st.values.update(j, st.values[j].push(v)),
        ..st
    }
}

/// Records that boolean flag `j` was seen.
pub open spec fn mark(st: Parsed, j: int) -> Parsed {
    Parsed { present: st.present.update(j, true), ..st }
}

/// Passes token `t` through.
pub open spec fn pass_on(st: Parsed, t: Seq<char>) -> Parsed {
    Parsed { rest: st.rest.push(t), ..st }
}

/// Splits `toks` from index `i` on, with `st` holding what came before.
pub open spec fn scan(
    toks: Seq<Seq<char>>,
    i: int,
    names: Seq<Seq<char>>,
    takes: Seq<bool>,
    reject: bool,
    dd: bool,
    st: Parsed,
) -> Result<Parsed, ArgFault>
    decreases toks.len() - i,
{
    if i < 0 || i >= toks.len() {
        Ok(st)
    } else {
        let t = toks[i];
        if dd && t == SEPARATOR@ {
            Ok(Parsed { rest: st.rest + toks.subrange(i + 1, toks.len() as int), ..st })
        } else if is_flag(t) {
            let j = flag_index(names, t, 0);
            if j < 0 {
                if reject {
                    Err(ArgFault::UnknownFlag(t))
                } else {
                    scan(toks, i + 1, names, takes, reject, dd, pass_on(st, t))
                }
            } else if takes[j] {
                if i + 1 < toks.len() {
                    scan(toks, i + 2, names, takes, reject, dd, add_value(st, j, toks[i + 1]))
                } else {
                    Err(ArgFault::MissingValue(t))
                }
            } else {
                scan(toks, i + 1, names, takes, reject, dd, mark(st, j))
            }
        } else {
            scan(toks, i + 1, names, takes, reject, dd, pass_on(st, t))
        }
    }
}

/// The state before any flag: `pos` taken, `n` declared flags unseen.
pub open spec fn initial(pos: Seq<Seq<char>>, n: nat) -> Parsed {
    Parsed {
        pos,
        present: Seq::new(n, |k: int| false),
        values: Seq::new(n, |k: int| Seq::<Seq<char>>::empty()),
        rest: Seq::empty(),
    }
}

/// Splitting `toks` with `npos` positional slots and the declared flags
/// `names` / `takes`; `reject` refuses unknown flags, `dd` enables the `--`
/// separator.
pub open spec fn parse(
    toks: Seq<Seq<char>>,
    npos: int,
    names: Seq<Seq<char>>,
    takes: Seq<bool>,
    reject: bool,
    dd: bool,
) -> Result<Parsed, ArgFault> {
    if toks.len() < npos || exists|k: int| 0 <= k < npos && is_flag(#[trigger] toks[k]) {
        Err(ArgFault::MissingPositional)
    } else {
        scan(toks, npos, names, takes, reject, dd, initial(toks.subrange(0, npos), names.len()))
    }
}

/// The abstract state of partly split arguments.
pub open spec fn model(
    positional: Seq<String>,
    present: Seq<bool>,
    values: Seq<Vec<String>>,
    rest: Seq<String>,
) -> Parsed {
    Parsed {
        pos: views(positional),
        present,
        values: values.map_values(|v: Vec<String>| views(v@)),
        rest: views(rest),
    }
}

/// Split arguments. `names[j]` is the `j`-th declared flag; `present[j]` and
/// `values[j]` belong to it.
pub struct ParsedArgs {
    pub positional: Vec<String>,
    pub names: Vec<String>,
    pub present: Vec<bool>,
    pub values: Vec<Vec<String>>,
    pub rest: Vec<String>,
}

impl View for ParsedArgs {
    type V = Parsed;

    open spec fn view(&self) -> Parsed {
        model(self.positional@, self.present@, self.values@, self.rest@)
    }
}

impl ParsedArgs {
    /// The declared flags line up with what was recorded of them.
    pub open spec fn wf(&self) -> bool {
        self.names@.len() == self.present@.len() && self.names@.len() == self.values@.len()
    }

    /// Where `name` stands among the declared flags, or -1.
    pub open spec fn slot(&self, name: Seq<char>) -> int {
        flag_index(views(self.names@), name, 0)
    }

    /// Whether flag `name` was declared and seen.
    pub fn contains_key(&self, name: &str) -> (r: bool)
        requires
            self.wf(),
        ensures
            r == (self.slot(name@) >= 0 && self@.present[self.slot(name@)]),
    {
        match lookup(&self.names, name) {
            Some(j) => self.present[j],
            None => false,
        }
    }

    /// The values given to flag `name`, if it was declared and seen.
    pub fn get(&self, name: &str) -> (r: Option<&Vec<String>>)
        requires
            self.wf(),
        ensures
            r.is_some() == (self.slot(name@) >= 0 && self@.present[self.slot(name@)]),
            r.is_some() ==> views(r.unwrap()@) == self@.values[self.slot(name@)],
    {
        match lookup(&self.names, name) {
            Some(j) => {
                if self.present[j] {
                    Some(&self.values[j])
                } else {
                    None
                }
            },
            None => None,
        }
    }
}

/// Where `t` first stands in `names`.
pub fn lookup(names: &Vec<String>, t: &str) -> (r: Option<usize>)
    ensures
        r.is_none() == (flag_index(views(names@), t@, 0) < 0),
        r.is_some() ==> r.unwrap() as int == flag_index(views(names@), t@, 0),
        flag_index(views(names@), t@, 0) < names@.len(),
{
    let mut j: usize = 0;
    proof {
        lemma_flag_index_range(views(names@), t@, 0);
    }
    while j < names.len()
        invariant
            j <= names@.len(),
            flag_index(views(names@), t@, 0) == flag_index(views(names@), t@, j as int),
            flag_index(views(names@), t@, 0) == -1 || flag_index(views(names@), t@, 0) >= j,
            -1 <= flag_index(views(names@), t@, 0) < names@.len(),
        decreases names.len() - j,
    {
        if same_text(names[j].as_str(), t) {
            return Some(j);
        }
        proof {
            lemma_flag_index_range(views(names@), t@, j + 1);
        }
        j = j + 1;
    }
    None
}

/// A flag's slot is -1 or an index, from `j` on, that holds the name.
pub proof fn lemma_flag_index_range(names: Seq<Seq<char>>, t: Seq<char>, j: int)
    requires
        0 <= j,
    ensures
        flag_index(names, t, j) == -1 || (j <= flag_index(names, t, j) < names.len()
            && names[flag_index(names, t, j)] == t),
    decreases names.len() - j,
{
    if j < names.len() && names[j] != t {
        lemma_flag_index_range(names, t, j + 1);
    }
}

/// Whether `t` reads as a flag.
pub fn is_flag_str(t: &str) -> (r: bool)
    ensures
        r == is_flag(t@),
{
    matches_at(t, SEPARATOR, 0)
}

/// Splits `args`: `npos` leading non-flag tokens fill the positional slots;
/// each declared flag is recorded, a value-taking one with the token after
/// it; with `passthrough`, a lone `--` hands every later token through
/// untouched; any other token is passed through, or, when it reads as a flag
/// and `reject_unknown` is set, refused.
pub fn split_args(
    args: &Vec<String>,
    npos: usize,
    flags: &Vec<FlagSpec>,
    reject_unknown: bool,
    passthrough: bool,
) -> (r: Result<ParsedArgs, ArgumentError>)
    ensures
        match r {
            Ok(p) => parse(
                views(args@),
                npos as int,
                names_of(flags@),
                takes_of(flags@),
                reject_unknown,
                passthrough,
            ) == Ok::<Parsed, ArgFault>(p@) && p.wf() && views(p.names@) == names_of(flags@)
                && views(p.positional@) == views(args@).subrange(0, npos as int),
            Err(e) => parse(
                views(args@),
                npos as int,
                names_of(flags@),
                takes_of(flags@),
                reject_unknown,
                passthrough,
            ) == Err::<Parsed, ArgFault>(e.fault()),
        },
{
    let ghost toks = views(args@);
    let ghost names_s = names_of(flags@);
    let ghost takes_s = takes_of(flags@);
    let n = args.len();
    if n < npos {
        return Err(ArgumentError::MissingPositional);
    }
    let mut positional: Vec<String> = Vec::new();
    let mut k: usize = 0;
    while k < npos
        invariant
            n == args@.len(),
            npos <= n,
            k <= npos,
            toks == views(args@),
            views(positional@) == toks.subrange(0, k as int),
            forall|q: int| 0 <= q < k ==> !is_flag(#[trigger] toks[q]),
        decreases npos - k,
    {
        if is_flag_str(args[k].as_str()) {
            assert(is_flag(toks[k as int]));
            return Err(ArgumentError::MissingPositional);
        }
        let c = args[k].clone();
        proof {
            lemma_views_push(positional@, c);
        }
        positional.push(c);
        assert(views(positional@) =~= toks.subrange(0, k + 1));
        k = k + 1;
    }
    let mut names: Vec<String> = Vec::new();
    let mut present: Vec<bool> = Vec::new();
    let mut values: Vec<Vec<String>> = Vec::new();
    let mut f: usize = 0;
    while f < flags.len()
        invariant
            f <= flags@.len(),
            names_s == names_of(flags@),
            views(names@) == names_s.subrange(0, f as int),
            present@ == Seq::new(f as nat, |q: int| false),
            forall|q: int| 0 <= q < f ==> (#[trigger] values@[q])@.len() == 0,
            values@.len() == f,
        decreases flags.len() - f,
    {
        let c = flags[f].name.clone();
        proof {
            lemma_views_push(names@, c);
        }
        names.push(c);
        present.push(false);
        values.push(Vec::new());
        assert(views(names@) =~= names_s.subrange(0, f + 1));
        assert(present@ =~= Seq::new((f + 1) as nat, |q: int| false));
        f = f + 1;
    }
    let mut rest: Vec<String> = Vec::new();
    proof {
        assert(views(names@) =~= names_s);
        assert forall|q: int| 0 <= q < values@.len() implies views(
            (#[trigger] values@[q])@,
        ) =~= Seq::<Seq<char>>::empty() by {
            assert(values@[q]@.len() == 0);
        }
        assert(values@.map_values(|v: Vec<String>| views(v@)) =~= Seq::new(
            names_s.len(),
            |q: int| Seq::<Seq<char>>::empty(),
        ));
        assert(model(positional@, present@, values@, rest@) =~= initial(
            toks.subrange(0, npos as int),
            names_s.len(),
        ));
    }
    let mut i: usize = npos;
    while i < n
        invariant
            n == args@.len(),
            npos <= i <= n,
            toks == views(args@),
            names_s == names_of(flags@),
            takes_s == takes_of(flags@),
            views(names@) == names_s,
            views(positional@) == toks.subrange(0, npos as int),
            present@.len() == names@.len(),
            values@.len() == names@.len(),
            names@.len() == flags@.len(),
            parse(toks, npos as int, names_s, takes_s, reject_unknown, passthrough) == scan(
                toks,
                i as int,
                names_s,
                takes_s,
                reject_unknown,
                passthrough,
                model(positional@, present@, values@, rest@),
            ),
        decreases n - i,
    {
        let ghost st = model(positional@, present@, values@, rest@);
        let t = args[i].as_str();
        if passthrough && same_text(t, SEPARATOR) {
            let mut q: usize = i + 1;
            while q < n
                invariant
                    n == args@.len(),
                    i < q <= n,
                    toks == views(args@),
                    views(rest@) == st.rest + toks.subrange(i + 1, q as int),
                decreases n - q,
            {
                let c = args[q].clone();
                proof {
                    lemma_views_push(rest@, c);
                }
                rest.push(c);
                assert(views(rest@) =~= st.rest + toks.subrange(i + 1, q + 1));
                q = q + 1;
            }
            let p = ParsedArgs { positional, names, present, values, rest };
            assert(p@ =~= Parsed { rest: st.rest + toks.subrange(i + 1, n as int), ..st });
            return Ok(p);
        }
        if is_flag_str(t) {
            match lookup(&names, t) {
                None => {
                    if reject_unknown {
                        return Err(ArgumentError::UnknownFlag(args[i].clone()));
                    }
                    let c = args[i].clone();
                    proof {
                        lemma_views_push(rest@, c);
                    }
                    rest.push(c);
                    assert(model(positional@, present@, values@, rest@) =~= pass_on(st, toks[i as int]));
                    i = i + 1;
                },
                Some(j) => {
                    assert(takes_s[j as int] == flags@[j as int].takes_value);
                    if flags[j].takes_value {
                        if i + 1 < n {
                            let mut v = values.remove(j);
                            let c = args[i + 1].clone();
                            proof {
                                lemma_views_push(v@, c);
                            }
                            v.push(c);
                            values.insert(j, v);
                            present.set(j, true);
                            let ghost st2 = model(positional@, present@, values@, rest@);
                            assert(st2.values =~= st.values.update(j as int, st.values[j as int].push(toks[i + 1])));
                            assert(st2 =~= add_value(st, j as int, toks[i + 1]));
                            i = i + 2;
                        } else {
                            return Err(ArgumentError::MissingValue(args[i].clone()));
                        }
                    } else {
                        present.set(j, true);
                        assert(model(positional@, present@, values@, rest@) =~= mark(st, j as int));
                        i = i + 1;
                    }
                },
            }
        } else {
            let c = args[i].clone();
            proof {
                lemma_views_push(rest@, c);
            }
            rest.push(c);
            assert(model(positional@, present@, values@, rest@) =~= pass_on(st, toks[i as int]));
            i = i + 1;
        }
    }
    let p = ParsedArgs { positional, names, present, values, rest };
    assert(scan(toks, i as int, names_s, takes_s, reject_unknown, passthrough, p@) == Ok::<Parsed, ArgFault>(p@));
    Ok(p)
}

/// An argument list shorter than the positional slots is refused.
pub proof fn lemma_too_few_tokens(
    toks: Seq<Seq<char>>,
    npos: int,
    names: Seq<Seq<char>>,
    takes: Seq<bool>,
    reject: bool,
    dd: bool,
)
    requires
        toks.len() < npos,
    ensures
        parse(toks, npos, names, takes, reject, dd) == Err::<Parsed, ArgFault>(
            ArgFault::MissingPositional,
        ),
{
}

/// Positional tokens followed by a `--` separator: everything after the
/// separator, whatever it looks like, is passed through as it is.
pub proof fn lemma_separator_passes_through(
    pos: Seq<Seq<char>>,
    tail: Seq<Seq<char>>,
    names: Seq<Seq<char>>,
    takes: Seq<bool>,
    reject: bool,
)
    requires
        forall|k: int| 0 <= k < pos.len() ==> !is_flag(#[trigger] pos[k]),
    ensures
        parse(pos + seq![SEPARATOR@] + tail, pos.len() as int, names, takes, reject, true) matches Ok(
            p,
        ) && p.rest == tail && p.pos == pos,
{
    let toks = pos + seq![SEPARATOR@] + tail;
    assert forall|k: int| 0 <= k < pos.len() implies !is_flag(#[trigger] toks[k]) by {
        assert(toks[k] == pos[k]);
    }
    assert(toks[pos.len() as int] == SEPARATOR@);
    assert(toks.subrange(pos.len() as int + 1, toks.len() as int) =~= tail);
    assert(toks.subrange(0, pos.len() as int) =~= pos);
    assert(Seq::<Seq<char>>::empty() + tail =~= tail);
}

/// `f` given before each of `vs` in turn: `f, vs[0], f, vs[1], ...`.
pub open spec fn repeated(f: Seq<char>, vs: Seq<Seq<char>>) -> Seq<Seq<char>>
    decreases vs.len(),
{
    if vs.len() == 0 {
        Seq::empty()
    } else {
        seq![f, vs[0]] + repeated(f, vs.drop_first())
    }
}

/// Scanning repeated uses of value-taking flag `f` appends their values to
/// its slot, in order.
pub proof fn lemma_scan_repeated(
    toks: Seq<Seq<char>>,
    i: int,
    f: Seq<char>,
    vs: Seq<Seq<char>>,
    names: Seq<Seq<char>>,
    takes: Seq<bool>,
    reject: bool,
    dd: bool,
    st: Parsed,
)
    requires
        0 <= i <= toks.len(),
        toks.subrange(i, toks.len() as int) == repeated(f, vs),
        is_flag(f),
        f != SEPARATOR@,
        0 <= flag_index(names, f, 0) < st.values.len(),
        flag_index(names, f, 0) < takes.len(),
        takes[flag_index(names, f, 0)],
    ensures
        scan(toks, i, names, takes, reject, dd, st) matches Ok(p) && p.values[flag_index(
            names,
            f,
            0,
        )] == st.values[flag_index(names, f, 0)] + vs && p.values.len() == st.values.len(),
    decreases vs.len(),
{
    let j = flag_index(names, f, 0);
    if vs.len() == 0 {
        assert(toks.subrange(i, toks.len() as int).len() == 0);
        assert(st.values[j] + vs =~= st.values[j]);
    } else {
        let sub = toks.subrange(i, toks.len() as int);
        assert(sub == seq![f, vs[0]] + repeated(f, vs.drop_first()));
        assert(sub[0] == f);
        assert(sub[1] == vs[0]);
        assert(toks[i] == f);
        assert(toks[i + 1] == vs[0]);
        assert(toks.subrange(i + 2, toks.len() as int) =~= sub.subrange(2, sub.len() as int));
        assert(sub.subrange(2, sub.len() as int) =~= repeated(f, vs.drop_first()));
        let st2 = add_value(st, j, vs[0]);
        lemma_scan_repeated(toks, i + 2, f, vs.drop_first(), names, takes, reject, dd, st2);
        assert(st2.values[j] + vs.drop_first() =~= st.values[j] + vs);
    }
}

/// A value-taking flag given N times after the positional tokens ends with
/// exactly those N values, in the order they were given.
pub proof fn lemma_repeated_flag_values(
    pos: Seq<Seq<char>>,
    f: Seq<char>,
    vs: Seq<Seq<char>>,
    names: Seq<Seq<char>>,
    takes: Seq<bool>,
    reject: bool,
    dd: bool,
)
    requires
        forall|k: int| 0 <= k < pos.len() ==> !is_flag(#[trigger] pos[k]),
        is_flag(f),
        f != SEPARATOR@,
        flag_index(names, f, 0) >= 0,
        names.len() == takes.len(),
        takes[flag_index(names, f, 0)],
    ensures
        parse(pos + repeated(f, vs), pos.len() as int, names, takes, reject, dd) matches Ok(p)
            && p.values[flag_index(names, f, 0)] == vs,
{
    let toks = pos + repeated(f, vs);
    lemma_flag_index_range(names, f, 0);
    assert forall|k: int| 0 <= k < pos.len() implies !is_flag(#[trigger] toks[k]) by {
        assert(toks[k] == pos[k]);
    }
    assert(toks.subrange(pos.len() as int, toks.len() as int) =~= repeated(f, vs));
    let st = initial(toks.subrange(0, pos.len() as int), names.len());
    lemma_scan_repeated(toks, pos.len() as int, f, vs, names, takes, reject, dd, st);
    assert(st.values[flag_index(names, f, 0)] + vs =~= vs);
}

} // verus!
