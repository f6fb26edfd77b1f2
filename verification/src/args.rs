//! The argument tokenizer: a single left-to-right pass over the raw
//! argument list that recognizes long options (`--name`), short options
//! (`-x`), and bundled short options (`-abc`), and attributes every naked
//! value to the most recently seen option (or to the empty-string sentinel
//! when none preceded it).

use vstd::prelude::*;
use crate::error::CliError;

verus! {

/// A token is an option token when its first character is a dash.
pub open spec fn starts_dash(a: Seq<char>) -> bool {
    a.len() >= 1 && a[0] == '-'
}

/// A long option token: its first two characters are dashes.
pub open spec fn starts_dash_dash(a: Seq<char>) -> bool {
    a.len() >= 2 && a[0] == '-' && a[1] == '-'
}

/// The abstract state of the tokenizer: the options recognized so far, the
/// values committed so far, all naked values seen, the active option
/// (initially the empty-string sentinel), and the run of naked values
/// accumulated since the last option token.
#[verifier::ext_equal]
pub struct TokenizerState {
    pub options: Seq<Seq<char>>,
    pub values: Map<Seq<char>, Seq<Seq<char>>>,
    pub free: Seq<Seq<char>>,
    pub cursor: Seq<char>,
    pub acc: Seq<Seq<char>>,
}

/// The state before any argument has been read.
pub open spec fn initial_state() -> TokenizerState {
    TokenizerState {
        options: Seq::empty(),
        values: Map::empty(),
        free: Seq::empty(),
        cursor: Seq::empty(),
        acc: Seq::empty(),
    }
}

/// Commit the accumulated naked values under the active option; an empty
/// accumulation commits nothing.
pub open spec fn flush(st: TokenizerState) -> TokenizerState {
    if st.acc.len() == 0 {
        st
    } else {
        TokenizerState { values: st.values.insert(st.cursor, st.acc), acc: Seq::empty(), ..st }
    }
}

/// The short-option tokens synthesized from a bundled token: one `-c` for
/// each character `c` of the token that is not itself a dash, in order.
pub open spec fn bundle_tokens(a: Seq<char>) -> Seq<Seq<char>>
    decreases a.len(),
{
    if a.len() == 0 {
        Seq::empty()
    } else if a.last() == '-' {
        bundle_tokens(a.drop_last())
    } else {
        bundle_tokens(a.drop_last()).push(seq!['-', a.last()])
    }
}

/// One step of the tokenizer on the next raw argument: an option token
/// flushes the accumulation and becomes the active option (a bundled token
/// contributes one option per non-dash character, the last becoming
/// active); anything else is a naked value.
pub open spec fn step(st: TokenizerState, a: Seq<char>) -> TokenizerState {
    if starts_dash_dash(a) {
        let f = flush(st);
        TokenizerState { options: f.options.push(a), cursor: a, ..f }
    } else if starts_dash(a) {
        let f = flush(st);
        if a.len() == 2 {
            TokenizerState { options: f.options.push(a), cursor: a, ..f }
        } else {
            let ts = bundle_tokens(a);
            TokenizerState {
                options: f.options + ts,
                cursor: if ts.len() > 0 { ts.last() } else { f.cursor },
                ..f
            }
        }
    } else {
        TokenizerState { free: st.free.push(a), acc: st.acc.push(a), ..st }
    }
}

/// The tokenizer run over a sequence of raw arguments, from a given state.
pub open spec fn run_from(st: TokenizerState, args: Seq<Seq<char>>) -> TokenizerState
    decreases args.len(),
{
    if args.len() == 0 {
        st
    } else {
        step(run_from(st, args.drop_last()), args.last())
    }
}

/// The tokenizer over a whole raw-argument list: a left-to-right pass from
/// the initial state, then a final flush of the trailing naked values.
pub open spec fn tokenize(args: Seq<Seq<char>>) -> TokenizerState {
    flush(run_from(initial_state(), args))
}

/// The mapping that a sequence of key/value entries represents: a later
/// entry overrides an earlier one with the same key.
pub open spec fn entries_map(entries: Seq<(String, Vec<String>)>) -> Map<Seq<char>, Seq<Seq<char>>>
    decreases entries.len(),
{
    if entries.len() == 0 {
        Map::empty()
    } else {
        entries_map(entries.drop_last()).insert(entries.last().0@, entries.last().1.deep_view())
    }
}

/// Command line arguments.
#[derive(Debug)]
pub struct Arguments {
    /// Recognized option tokens, in first-seen order.
    pub args: Vec<String>,
    /// The naked values recorded under each option token, as key/value
    /// entries; a later entry overrides an earlier one with the same key.
    pub values: Vec<(String, Vec<String>)>,
    /// All naked values seen, in input order.
    pub naked_values: Vec<String>,
}

/// Character-by-character string equality.
fn str_eq(a: &str, b: &str) -> (r: bool)
    ensures
        r == (a@ == b@),
{
    let n = a.unicode_len();
    if n != b.unicode_len() {
        return false;
    }
    let mut i: usize = 0;
    while i < n
        invariant
            n == a@.len(),
            n == b@.len(),
            i <= n,
            forall|j: int| 0 <= j < i ==> a@[j] == b@[j],
        decreases n - i,
    {
        if a.get_char(i) != b.get_char(i) {
            return false;
        }
        i += 1;
    }
    proof {
        assert(a@ =~= b@);
    }
    true
}

/// Does the token begin with two dashes?
fn begins_dash_dash(s: &str) -> (b: bool)
    ensures
        b == starts_dash_dash(s@),
{
    s.unicode_len() >= 2 && s.get_char(0) == '-' && s.get_char(1) == '-'
}

/// Does the token begin with a dash?
fn begins_dash(s: &str) -> (b: bool)
    ensures
        b == starts_dash(s@),
{
    s.unicode_len() >= 1 && s.get_char(0) == '-'
}

/// No entry carries the key: the represented mapping does not contain it.
proof fn lemma_entries_map_absent(entries: Seq<(String, Vec<String>)>, k: Seq<char>)
    requires
        forall|j: int| 0 <= j < entries.len() ==> entries[j].0@ != k,
    ensures
        !entries_map(entries).contains_key(k),
    decreases entries.len(),
{
    if entries.len() > 0 {
        lemma_entries_map_absent(entries.drop_last(), k);
    }
}

/// The last entry carrying a key decides what the mapping holds under it.
proof fn lemma_entries_map_last_match(entries: Seq<(String, Vec<String>)>, i: int)
    requires
        0 <= i < entries.len(),
        forall|j: int| i < j < entries.len() ==> entries[j].0@ != entries[i].0@,
    ensures
        entries_map(entries).contains_key(entries[i].0@),
        entries_map(entries)[entries[i].0@] == entries[i].1.deep_view(),
    decreases entries.len(),
{
    if i + 1 < entries.len() {
        assert(entries.drop_last()[i] == entries[i]);
        lemma_entries_map_last_match(entries.drop_last(), i);
    }
}

/// Find the value recorded under a key: the last matching entry decides.
fn lookup<'a>(entries: &'a Vec<(String, Vec<String>)>, key: &str) -> (r: Option<&'a Vec<String>>)
    ensures
        match r {
            Some(vals) => entries_map(entries@).contains_key(key@)
                && vals.deep_view() == entries_map(entries@)[key@],
            None => !entries_map(entries@).contains_key(key@),
        },
{
    let mut i: usize = entries.len();
    while i > 0
        invariant
            i <= entries.len(),
            forall|j: int| i <= j < entries.len() ==> entries@[j].0@ != key@,
        decreases i,
    {
        i -= 1;
        if str_eq(entries[i].0.as_str(), key) {
            proof {
                lemma_entries_map_last_match(entries@, i as int);
            }
            return Some(&entries[i].1);
        }
    }
    proof {
        lemma_entries_map_absent(entries@, key@);
    }
    None
}

impl Arguments {
    /// The recognized option tokens, in first-seen order.
    pub open spec fn options(&self) -> Seq<Seq<char>> {
        self.args.deep_view()
    }

    /// The mapping from option token to the naked values recorded under it.
    pub open spec fn values_map(&self) -> Map<Seq<char>, Seq<Seq<char>>> {
        entries_map(self.values@)
    }

    /// All naked values, in input order.
    pub open spec fn free_values(&self) -> Seq<Seq<char>> {
        self.naked_values.deep_view()
    }

    /// Generate a new `Arguments` object from the raw argument list,
    /// excluding the program name.
    pub fn new(raw_args: Vec<String>) -> (r: Arguments)
        ensures
            r.options() == tokenize(raw_args.deep_view()).options,
            r.values_map() == tokenize(raw_args.deep_view()).values,
            r.free_values() == tokenize(raw_args.deep_view()).free,
    {
        let mut args: Vec<String> = Vec::new();
        let mut values: Vec<(String, Vec<String>)> = Vec::new();
        let mut free: Vec<String> = Vec::new();
        let mut acc: Vec<String> = Vec::new();
        let mut last_arg: String = String::new();

        let ghost raw = raw_args.deep_view();
        let n = raw_args.len();
        let mut idx: usize = 0;
        proof {
            assert(raw.take(0) =~= Seq::<Seq<char>>::empty());
        }
        while idx < n
            invariant
                n == raw_args.len(),
                raw == raw_args.deep_view(),
                idx <= n,
                args.deep_view() == run_from(initial_state(), raw.take(idx as int)).options,
                entries_map(values@) == run_from(initial_state(), raw.take(idx as int)).values,
                free.deep_view() == run_from(initial_state(), raw.take(idx as int)).free,
                last_arg@ == run_from(initial_state(), raw.take(idx as int)).cursor,
                acc.deep_view() == run_from(initial_state(), raw.take(idx as int)).acc,
            decreases n - idx,
        {
            let ghost st = run_from(initial_state(), raw.take(idx as int));
            let ghost st_next = step(st, raw[idx as int]);
            proof {
                assert(raw.take(idx as int + 1).drop_last() =~= raw.take(idx as int));
                assert(raw.take(idx as int + 1).last() == raw[idx as int]);
                assert(run_from(initial_state(), raw.take(idx as int + 1)) == st_next);
                assert(raw[idx as int] == raw_args@[idx as int]@);
            }
            let arg = &raw_args[idx];
            if begins_dash_dash(arg.as_str()) {
                if acc.len() != 0 {
                    let ghost old_entries = values@;
                    let committed = acc;
                    acc = Vec::new();
                    values.push((last_arg.clone(), committed));
                    proof {
                        assert(values@.drop_last() =~= old_entries);
                        assert(entries_map(values@) == flush(st).values);
                        assert(acc.deep_view() =~= flush(st).acc);
                    }
                }
                args.push(arg.clone());
                last_arg = arg.clone();
                proof {
                    assert(args.deep_view() =~= st_next.options);
                }
            } else if begins_dash(arg.as_str()) {
                if acc.len() != 0 {
                    let ghost old_entries = values@;
                    let committed = acc;
                    acc = Vec::new();
                    values.push((last_arg.clone(), committed));
                    proof {
                        assert(values@.drop_last() =~= old_entries);
                        assert(entries_map(values@) == flush(st).values);
                        assert(acc.deep_view() =~= flush(st).acc);
                    }
                }
                let s = arg.as_str();
                if s.unicode_len() == 2 {
                    args.push(arg.clone());
                    last_arg = arg.clone();
                    proof {
                        assert(args.deep_view() =~= st_next.options);
                    }
                } else {
                    let ghost opts0 = args.deep_view();
                    let ghost cur0 = last_arg@;
                    let m = s.unicode_len();
                    let mut j: usize = 0;
                    proof {
                        assert(s@.take(0) =~= Seq::<char>::empty());
                        assert(opts0 + bundle_tokens(s@.take(0)) =~= opts0);
                    }
                    while j < m
                        invariant
                            m == s@.len(),
                            j <= m,
                            args.deep_view() == opts0 + bundle_tokens(s@.take(j as int)),
                            last_arg@ == (if bundle_tokens(s@.take(j as int)).len() > 0 {
                                bundle_tokens(s@.take(j as int)).last()
                            } else {
                                cur0
                            }),
                        decreases m - j,
                    {
                        let ghost toks = bundle_tokens(s@.take(j as int));
                        proof {
                            assert(s@.take(j as int + 1).drop_last() =~= s@.take(j as int));
                            assert(s@.take(j as int + 1).last() == s@[j as int]);
                        }
                        let c = s.get_char(j);
                        if c != '-' {
                            let mut tok = "-".to_owned();
                            tok.append(s.substring_char(j, j + 1));
                            proof {
                                reveal_strlit("-");
                                assert(tok@ =~= seq!['-', s@[j as int]]);
                            }
                            let ghost dv0 = args.deep_view();
                            args.push(tok.clone());
                            last_arg = tok;
                            proof {
                                assert(bundle_tokens(s@.take(j as int + 1))
                                    =~= toks.push(seq!['-', s@[j as int]]));
                                assert(args.deep_view() =~= dv0.push(seq!['-', s@[j as int]]));
                                assert((opts0 + toks).push(seq!['-', s@[j as int]])
                                    =~= opts0 + toks.push(seq!['-', s@[j as int]]));
                            }
                        }
                        j += 1;
                    }
                    proof {
                        assert(s@.take(m as int) =~= s@);
                        assert(args.deep_view() =~= st_next.options);
                    }
                }
            } else {
                let ghost free0 = free.deep_view();
                let ghost acc0 = acc.deep_view();
                free.push(arg.clone());
                acc.push(arg.clone());
                proof {
                    assert(free.deep_view() =~= free0.push(raw[idx as int]));
                    assert(acc.deep_view() =~= acc0.push(raw[idx as int]));
                }
            }
            idx += 1;
        }
        proof {
            assert(raw.take(n as int) =~= raw);
        }
        let ghost st_end = run_from(initial_state(), raw);
        if acc.len() != 0 {
            let ghost old_entries = values@;
            values.push((last_arg, acc));
            proof {
                assert(values@.drop_last() =~= old_entries);
                assert(entries_map(values@) == flush(st_end).values);
            }
            Arguments { args, values, naked_values: free }
        } else {
            Arguments { args, values, naked_values: free }
        }
    }

    /// Extract a single value passed as the value of an option: the first
    /// naked value recorded under the key, if any was.
    pub fn get_single(&self, key: &str) -> (r: Option<String>)
        ensures
            match r {
                Some(s) => self.values_map().contains_key(key@)
                    && self.values_map()[key@].len() > 0
                    && s@ == self.values_map()[key@][0],
                None => !self.values_map().contains_key(key@)
                    || self.values_map()[key@].len() == 0,
            },
    {
        match lookup(&self.values, key) {
            Some(vals) => {
                if vals.len() > 0 {
                    proof {
                        assert(vals.deep_view()[0] == vals@[0]@);
                    }
                    Some(vals[0].clone())
                } else {
                    None
                }
            },
            None => None,
        }
    }

    /// Checks if an argument was given.
    pub fn check_arg(&self, arg: &str) -> (r: bool)
        ensures
            r == self.options().contains(arg@),
    {
        let mut i: usize = 0;
        while i < self.args.len()
            invariant
                i <= self.args.len(),
                forall|j: int| 0 <= j < i ==> self.args@[j]@ != arg@,
            decreases self.args.len() - i,
        {
            if str_eq(self.args[i].as_str(), arg) {
                proof {
                    assert(self.options()[i as int] == arg@);
                }
                return true;
            }
            i += 1;
        }
        proof {
            assert(forall|j: int| 0 <= j < self.options().len() ==> self.options()[j] != arg@);
        }
        false
    }

    /// Get a passed value, parsed into `T`: absent options and options
    /// without a value yield nothing, and a failed parse is silently
    /// swallowed.
    pub fn get_passed<T: std::str::FromStr>(&self, arg: &str) -> (r: Option<T>)
        ensures
            !self.options().contains(arg@) ==> r is None,
            !self.values_map().contains_key(arg@) || self.values_map()[arg@].len() == 0
                ==> r is None,
    {
        if !self.check_arg(arg) {
            return None;
        }
        match self.get_single(arg) {
            Some(s) => parse_str::<T>(s.as_str()),
            None => None,
        }
    }

    /// Get a passed value while checking the failure causes: an absent
    /// option, an option without a value, and an unparsable value each
    /// yield a distinct fatal error with code 1.
    pub fn get_passed_checked<T: std::str::FromStr>(&self, arg: &str) -> (r: Result<T, CliError>)
        ensures
            !self.options().contains(arg@) ==> (r matches Err(e)
                && e.error@ == missing_option_message(arg@)
                && e.error_code == 1 && e.error_level is Error && !e.reported),
            self.options().contains(arg@)
                && (!self.values_map().contains_key(arg@) || self.values_map()[arg@].len() == 0)
                ==> (r matches Err(e)
                    && e.error@ == missing_value_message(arg@)
                    && e.error_code == 1 && e.error_level is Error && !e.reported),
            self.options().contains(arg@) && self.values_map().contains_key(arg@)
                && self.values_map()[arg@].len() > 0
                ==> r is Ok || (r matches Err(e)
                    && e.error@ == unparsable_value_message(arg@)
                    && e.error_code == 1 && e.error_level is Error && !e.reported),
    {
        if !self.check_arg(arg) {
            let m = build_missing_option_message(arg);
            return CliError::error(m.as_str(), 1);
        }
        match self.get_single(arg) {
            Some(s) => checked_of_parsed(arg, parse_str::<T>(s.as_str())),
            None => {
                let m = build_missing_value_message(arg);
                CliError::error(m.as_str(), 1)
            },
        }
    }
}

/// Relies on `str::parse`: parses the string through `T`'s `FromStr`
/// implementation, whose outcome depends on that implementation alone; a
/// parse failure becomes `None`.
#[verifier::external_body]
fn parse_str<T: std::str::FromStr>(s: &str) -> (r: Option<T>) {
    match s.parse::<T>() {
        Ok(v) => Some(v),
        Err(_) => None,
    }
}

/// The message reported when the option was not passed at all.
pub open spec fn missing_option_message(arg: Seq<char>) -> Seq<char> {
    "No '"@ + arg + "' option passed"@
}

/// The message reported when the option was passed without a value.
pub open spec fn missing_value_message(arg: Seq<char>) -> Seq<char> {
    "No argument passed to '"@ + arg + "'"@
}

/// The message reported when the option's value could not be parsed.
pub open spec fn unparsable_value_message(arg: Seq<char>) -> Seq<char> {
    "Cannot parse argument to '"@ + arg + "'"@
}

fn build_missing_option_message(arg: &str) -> (r: String)
    ensures
        r@ == missing_option_message(arg@),
{
    let mut m = "No '".to_owned();
    m.append(arg);
    m.append("' option passed");
    m
}

fn build_missing_value_message(arg: &str) -> (r: String)
    ensures
        r@ == missing_value_message(arg@),
{
    let mut m = "No argument passed to '".to_owned();
    m.append(arg);
    m.append("'");
    m
}

fn build_unparsable_value_message(arg: &str) -> (r: String)
    ensures
        r@ == unparsable_value_message(arg@),
{
    let mut m = "Cannot parse argument to '".to_owned();
    m.append(arg);
    m.append("'");
    m
}

/// Turns the outcome of parsing an option's first value into the checked
/// result: a parsed value is success, a failed parse is the fatal
/// unparsable-value error with code 1.
pub fn checked_of_parsed<T>(arg: &str, parsed: Option<T>) -> (r: Result<T, CliError>)
    ensures
        parsed matches Some(v) ==> (r matches Ok(w) && w == v),
        parsed is None ==> (r matches Err(e)
            && e.error@ == unparsable_value_message(arg@)
            && e.error_code == 1 && e.error_level is Error && !e.reported),
{
    match parsed {
        Some(v) => Ok(v),
        None => {
            let m = build_unparsable_value_message(arg);
            CliError::error(m.as_str(), 1)
        },
    }
}

/// Running from a state over naked values only appends them to the free
/// list and to the accumulation; nothing else changes.
proof fn lemma_run_from_naked(st: TokenizerState, vals: Seq<Seq<char>>)
    requires
        forall|i: int| 0 <= i < vals.len() ==> !starts_dash(vals[i]),
    ensures
        run_from(st, vals) == (TokenizerState { free: st.free + vals, acc: st.acc + vals, ..st }),
    decreases vals.len(),
{
    if vals.len() == 0 {
        assert(st.free + vals =~= st.free);
        assert(st.acc + vals =~= st.acc);
        assert(run_from(st, vals) =~= (TokenizerState {
            free: st.free + vals,
            acc: st.acc + vals,
            ..st
        }));
    } else {
        lemma_run_from_naked(st, vals.drop_last());
        assert(vals[vals.len() - 1] == vals.last());
        assert((st.free + vals.drop_last()).push(vals.last()) =~= st.free + vals);
        assert((st.acc + vals.drop_last()).push(vals.last()) =~= st.acc + vals);
        assert(run_from(st, vals) =~= (TokenizerState {
            free: st.free + vals,
            acc: st.acc + vals,
            ..st
        }));
    }
}

/// Running over a concatenation is running over the parts in turn.
proof fn lemma_run_from_app(st: TokenizerState, a: Seq<Seq<char>>, b: Seq<Seq<char>>)
    ensures
        run_from(st, a + b) == run_from(run_from(st, a), b),
    decreases b.len(),
{
    if b.len() == 0 {
        assert(a + b =~= a);
    } else {
        lemma_run_from_app(st, a, b.drop_last());
        assert((a + b).drop_last() =~= a + b.drop_last());
        assert((a + b).last() == b.last());
    }
}

/// Law: when no raw argument starts with a dash, nothing is recognized as
/// an option, the free values are the input verbatim, and the values
/// mapping has at most one entry: the whole input keyed by the
/// empty-string sentinel.
pub proof fn lemma_all_naked(args: Seq<Seq<char>>)
    requires
        forall|i: int| 0 <= i < args.len() ==> !starts_dash(args[i]),
    ensures
        tokenize(args).options == Seq::<Seq<char>>::empty(),
        tokenize(args).free == args,
        args.len() == 0 ==> tokenize(args).values == Map::<Seq<char>, Seq<Seq<char>>>::empty(),
        args.len() > 0 ==> tokenize(args).values == Map::<Seq<char>, Seq<Seq<char>>>::empty()
            .insert(Seq::empty(), args),
{
    lemma_run_from_naked(initial_state(), args);
    assert(Seq::<Seq<char>>::empty() + args =~= args);
}

/// Law: a bundled short-option token is split into one synthesized short
/// option per non-dash character, and naked values that follow it are
/// attributed to the last synthesized option only.
pub proof fn lemma_bundled_attribution(bundle: Seq<char>, vals: Seq<Seq<char>>)
    requires
        starts_dash(bundle),
        !starts_dash_dash(bundle),
        bundle.len() != 2,
        bundle_tokens(bundle).len() > 0,
        vals.len() > 0,
        forall|i: int| 0 <= i < vals.len() ==> !starts_dash(vals[i]),
    ensures
        tokenize(seq![bundle] + vals).options == bundle_tokens(bundle),
        tokenize(seq![bundle] + vals).free == vals,
        tokenize(seq![bundle] + vals).values == Map::<Seq<char>, Seq<Seq<char>>>::empty()
            .insert(bundle_tokens(bundle).last(), vals),
{
    lemma_run_from_app(initial_state(), seq![bundle], vals);
    let st1 = run_from(initial_state(), seq![bundle]);
    assert(seq![bundle].drop_last() =~= Seq::<Seq<char>>::empty());
    assert(seq![bundle].last() == bundle);
    assert(st1 == step(run_from(initial_state(), seq![bundle].drop_last()), seq![bundle].last()));
    assert(run_from(initial_state(), Seq::<Seq<char>>::empty()) == initial_state());
    assert(st1 == step(initial_state(), bundle));
    assert(st1.options =~= bundle_tokens(bundle));
    lemma_run_from_naked(st1, vals);
    let st2 = run_from(st1, vals);
    assert(st2.free =~= vals);
    assert(st2.acc =~= vals);
    assert(tokenize(seq![bundle] + vals).values == st2.values.insert(st2.cursor, st2.acc));
}

/// Law: the three failure messages of `get_passed_checked` are pairwise
/// distinct, whatever the option token.
pub proof fn lemma_checked_messages_distinct(arg: Seq<char>)
    ensures
        missing_option_message(arg) != missing_value_message(arg),
        missing_option_message(arg) != unparsable_value_message(arg),
        missing_value_message(arg) != unparsable_value_message(arg),
{
    reveal_strlit("No '");
    reveal_strlit("No argument passed to '");
    reveal_strlit("Cannot parse argument to '");
    assert(missing_option_message(arg)[3] == '\'');
    assert(missing_value_message(arg)[3] == 'a');
    assert(missing_option_message(arg)[0] == 'N');
    assert(missing_value_message(arg)[0] == 'N');
    assert(unparsable_value_message(arg)[0] == 'C');
}

/// Every key of the values mapping, and the cursor, is a recognized option
/// token or the empty-string sentinel.
spec fn keys_ok(st: TokenizerState) -> bool {
    &&& (forall|k: Seq<char>|
        st.values.contains_key(k) ==> st.options.contains(k) || k == Seq::<char>::empty())
    &&& (st.options.contains(st.cursor) || st.cursor == Seq::<char>::empty())
}

proof fn lemma_flush_keys(st: TokenizerState)
    requires
        keys_ok(st),
    ensures
        keys_ok(flush(st)),
{
}

proof fn lemma_step_keys(st: TokenizerState, a: Seq<char>)
    requires
        keys_ok(st),
    ensures
        keys_ok(step(st, a)),
{
    lemma_flush_keys(st);
    let f = flush(st);
    if starts_dash_dash(a) || (starts_dash(a) && a.len() == 2) {
        let opts = f.options.push(a);
        assert forall|k: Seq<char>| f.options.contains(k) implies opts.contains(k) by {
            let i = choose|i: int| 0 <= i < f.options.len() && f.options[i] == k;
            assert(opts[i] == k);
        }
        assert(opts[opts.len() - 1] == a);
        assert(opts.contains(a));
    } else if starts_dash(a) {
        let ts = bundle_tokens(a);
        let opts = f.options + ts;
        assert forall|k: Seq<char>| f.options.contains(k) implies opts.contains(k) by {
            let i = choose|i: int| 0 <= i < f.options.len() && f.options[i] == k;
            assert(opts[i] == k);
        }
        if ts.len() > 0 {
            assert(opts[f.options.len() + ts.len() - 1] == ts.last());
            assert(opts.contains(ts.last()));
        }
    }
}

proof fn lemma_run_keys(st: TokenizerState, args: Seq<Seq<char>>)
    requires
        keys_ok(st),
    ensures
        keys_ok(run_from(st, args)),
    decreases args.len(),
{
    if args.len() > 0 {
        lemma_run_keys(st, args.drop_last());
        lemma_step_keys(run_from(st, args.drop_last()), args.last());
    }
}

/// Law: every key of the values mapping is a recognized option token or
/// the empty-string sentinel that stands for "no option seen yet".
pub proof fn lemma_value_keys_are_options(args: Seq<Seq<char>>)
    ensures
        forall|k: Seq<char>|
            tokenize(args).values.contains_key(k) ==> tokenize(args).options.contains(k)
                || k == Seq::<char>::empty(),
{
    assert(keys_ok(initial_state()));
    lemma_run_keys(initial_state(), args);
    lemma_flush_keys(run_from(initial_state(), args));
}

/// Every recorded run of values is nonempty.
spec fn values_nonempty(st: TokenizerState) -> bool {
    forall|k: Seq<char>| st.values.contains_key(k) ==> st.values[k].len() > 0
}

proof fn lemma_flush_nonempty(st: TokenizerState)
    requires
        values_nonempty(st),
    ensures
        values_nonempty(flush(st)),
{
}

proof fn lemma_run_nonempty(st: TokenizerState, args: Seq<Seq<char>>)
    requires
        values_nonempty(st),
    ensures
        values_nonempty(run_from(st, args)),
    decreases args.len(),
{
    if args.len() > 0 {
        lemma_run_nonempty(st, args.drop_last());
        lemma_flush_nonempty(run_from(st, args.drop_last()));
    }
}

/// Law: an option key in the values mapping always carries at least one
/// value, since a run of naked values is committed only when it is
/// nonempty; so `get_single` yields nothing exactly for the options with no
/// recorded run.
pub proof fn lemma_values_nonempty(args: Seq<Seq<char>>)
    ensures
        forall|k: Seq<char>|
            tokenize(args).values.contains_key(k) ==> tokenize(args).values[k].len() > 0,
{
    lemma_run_nonempty(initial_state(), args);
    lemma_flush_nonempty(run_from(initial_state(), args));
}

} // verus!
