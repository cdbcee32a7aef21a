//! The run configuration and its one-line text form: a comma-separated
//! list of module names, and a comma-separated list of option assignments
//! `module.key=value`.

use vstd::prelude::*;
use crate::options::OptionMap;
use crate::text::{
    char_index, fields_of, index_of, join_fields, lemma_fields_nonempty, lemma_index_of,
    lemma_join_fields_of, split_fields, string_index, views,
};

verus! {

/// What is wrong with a module name or an option assignment.
#[derive(Clone, Copy, Debug, PartialEq, Eq, Structural)]
pub enum ParseErrorKind {
    /// A module name is empty.
    EmptyModuleName,
    /// A module name occurs earlier in the list too.
    DuplicateModule,
    /// An option assignment has no `=`.
    MissingValue,
    /// The left side of an option assignment has no `.` before the key.
    MissingModule,
    /// The key of an option assignment is empty.
    EmptyKey,
    /// An option assignment names a module that is not in the list.
    UnknownModule,
}

/// A malformed module name or option assignment, with the offending token.
#[derive(Debug)]
pub struct ParseError {
    pub kind: ParseErrorKind,
    pub token: String,
}

/// A module to run, with its options.
#[derive(Debug)]
pub struct Ruleset {
    pub name: String,
    pub options: OptionMap,
}

/// The rulesets of one run, in the order in which they execute.
#[derive(Debug)]
pub struct RunConfiguration {
    rulesets: Vec<Ruleset>,
}

/// The model of a ruleset: its name and its option map.
pub type RulesetModel = (Seq<char>, Map<Seq<char>, Seq<char>>);

pub open spec fn ruleset_views(s: Seq<Ruleset>) -> Seq<RulesetModel> {
    s.map_values(|r: Ruleset| (r.name@, r.options@))
}

/// The module names of a configuration model, in order.
pub open spec fn names_of(c: Seq<RulesetModel>) -> Seq<Seq<char>> {
    c.map_values(|p: RulesetModel| p.0)
}

impl View for RunConfiguration {
    type V = Seq<RulesetModel>;

    closed spec fn view(&self) -> Seq<RulesetModel> {
        ruleset_views(self.rulesets@)
    }
}

// ---- the text form, as a mathematical function ----

/// The fault of the `i`-th module name, if any.
pub open spec fn module_fault(names: Seq<Seq<char>>, i: int) -> Option<ParseErrorKind> {
    if names[i].len() == 0 {
        Some(ParseErrorKind::EmptyModuleName)
    } else if exists|j: int| 0 <= j < i && names[j] == names[i] {
        Some(ParseErrorKind::DuplicateModule)
    } else {
        None
    }
}

/// The first faulty module name among the first `n`, with its fault.
pub open spec fn first_module_fault(names: Seq<Seq<char>>, n: int) -> Option<(int, ParseErrorKind)>
    decreases n,
{
    if n <= 0 {
        None
    } else {
        match first_module_fault(names, n - 1) {
            Some(f) => Some(f),
            None => match module_fault(names, n - 1) {
                Some(k) => Some((n - 1, k)),
                None => None,
            },
        }
    }
}

/// The option assignments of an option text; an empty text holds none.
pub open spec fn option_entries(options: Seq<char>) -> Seq<Seq<char>> {
    if options.len() == 0 {
        Seq::empty()
    } else {
        fields_of(options, ',')
    }
}

/// The text before the first `=` of an assignment.
pub open spec fn entry_lhs(e: Seq<char>) -> Seq<char> {
    e.take(index_of(e, '='))
}

/// The text after the first `=` of an assignment.
pub open spec fn entry_value(e: Seq<char>) -> Seq<char> {
    e.skip(index_of(e, '=') + 1)
}

/// The module that an assignment names: its left side up to the first `.`.
pub open spec fn entry_module(e: Seq<char>) -> Seq<char> {
    entry_lhs(e).take(index_of(entry_lhs(e), '.'))
}

/// The key that an assignment sets: its left side after the first `.`.
pub open spec fn entry_key(e: Seq<char>) -> Seq<char> {
    entry_lhs(e).skip(index_of(entry_lhs(e), '.') + 1)
}

/// The fault of an assignment against the module names, if any.
pub open spec fn option_fault(names: Seq<Seq<char>>, e: Seq<char>) -> Option<ParseErrorKind> {
    if index_of(e, '=') < 0 {
        Some(ParseErrorKind::MissingValue)
    } else if index_of(entry_lhs(e), '.') < 0 {
        Some(ParseErrorKind::MissingModule)
    } else if entry_key(e).len() == 0 {
        Some(ParseErrorKind::EmptyKey)
    } else if index_of(names, entry_module(e)) < 0 {
        Some(ParseErrorKind::UnknownModule)
    } else {
        None
    }
}

/// The first faulty assignment among the first `n`, with its fault.
pub open spec fn first_option_fault(names: Seq<Seq<char>>, entries: Seq<Seq<char>>, n: int) -> Option<
    (int, ParseErrorKind),
>
    decreases n,
{
    if n <= 0 {
        None
    } else {
        match first_option_fault(names, entries, n - 1) {
            Some(f) => Some(f),
            None => match option_fault(names, entries[n - 1]) {
                Some(k) => Some((n - 1, k)),
                None => None,
            },
        }
    }
}

/// The options that the assignments give module `m`; a later assignment
/// of a key replaces an earlier one.
pub open spec fn options_for(entries: Seq<Seq<char>>, m: Seq<char>) -> Map<Seq<char>, Seq<char>>
    decreases entries.len(),
{
    if entries.len() == 0 {
        Map::empty()
    } else {
        let before = options_for(entries.drop_last(), m);
        let e = entries.last();
        if entry_module(e) == m {
            before.insert(entry_key(e), entry_value(e))
        } else {
            before
        }
    }
}

/// The configuration that a module text and an option text describe, or
/// the first fault with its token. Module names are checked before options.
pub open spec fn parse_spec(modules: Seq<char>, options: Seq<char>) -> Result<
    Seq<RulesetModel>,
    (ParseErrorKind, Seq<char>),
> {
    let names = fields_of(modules, ',');
    let entries = option_entries(options);
    match first_module_fault(names, names.len() as int) {
        Some((i, k)) => Err((k, names[i])),
        None => match first_option_fault(names, entries, entries.len() as int) {
            Some((j, k)) => Err((k, entries[j])),
            None => Ok(
                Seq::new(names.len(), |i: int| (names[i], options_for(entries, names[i]))),
            ),
        },
    }
}

/// The model of a parse result.
pub open spec fn parse_result_view(r: Result<RunConfiguration, ParseError>) -> Result<
    Seq<RulesetModel>,
    (ParseErrorKind, Seq<char>),
> {
    match r {
        Ok(c) => Ok(c@),
        Err(e) => Err((e.kind, e.token@)),
    }
}

/// A configuration with the input and output bindings set in the options
/// of its first ruleset.
pub open spec fn inject_spec(c: Seq<RulesetModel>, file: Seq<char>, output: Seq<char>) -> Seq<
    RulesetModel,
> {
    c.update(0, (c[0].0, c[0].1.insert("file"@, file).insert("output"@, output)))
}

/// Parsing keeps the modules in the order the text gives them, and
/// writing the names back, comma-separated, gives the module text again.
pub proof fn lemma_module_order_round_trip(modules: Seq<char>, options: Seq<char>)
    requires
        parse_spec(modules, options) is Ok,
    ensures
        names_of(parse_spec(modules, options)->Ok_0) == fields_of(modules, ','),
        join_fields(names_of(parse_spec(modules, options)->Ok_0), ',') == modules,
{
    assert(names_of(parse_spec(modules, options)->Ok_0) =~= fields_of(modules, ','));
    lemma_join_fields_of(modules, ',');
}

/// Injecting the bindings touches the options of the first ruleset only:
/// every name, and the options of every later ruleset, stay as they were.
pub proof fn lemma_injection_touches_first_only(
    c: Seq<RulesetModel>,
    file: Seq<char>,
    output: Seq<char>,
)
    requires
        c.len() >= 1,
    ensures
        inject_spec(c, file, output).len() == c.len(),
        names_of(inject_spec(c, file, output)) == names_of(c),
        forall|i: int| 1 <= i < c.len() ==> #[trigger] inject_spec(c, file, output)[i] == c[i],
        inject_spec(c, file, output)[0].1 == c[0].1.insert("file"@, file).insert("output"@, output),
{
    assert(names_of(inject_spec(c, file, output)) =~= names_of(c));
}

/// The description of a parse fault and its token.
pub open spec fn parse_error_text(kind: ParseErrorKind, token: Seq<char>) -> Seq<char> {
    match kind {
        ParseErrorKind::EmptyModuleName => "empty module name in the module list"@,
        ParseErrorKind::DuplicateModule => "module listed more than once: "@ + token,
        ParseErrorKind::MissingValue => "option without '=': "@ + token,
        ParseErrorKind::MissingModule => "option key without a module: "@ + token,
        ParseErrorKind::EmptyKey => "option with an empty key: "@ + token,
        ParseErrorKind::UnknownModule => "option for a module that is not listed: "@ + token,
    }
}

impl ParseError {
    /// A description of the fault, naming the offending token.
    pub fn describe(&self) -> (r: String)
        ensures
            r@ == parse_error_text(self.kind, self.token@),
    {
        let t = self.token.as_str();
        match self.kind {
            ParseErrorKind::EmptyModuleName => String::from_str("empty module name in the module list"),
            ParseErrorKind::DuplicateModule => String::from_str("module listed more than once: ").concat(t),
            ParseErrorKind::MissingValue => String::from_str("option without '=': ").concat(t),
            ParseErrorKind::MissingModule => String::from_str("option key without a module: ").concat(t),
            ParseErrorKind::EmptyKey => String::from_str("option with an empty key: ").concat(t),
            ParseErrorKind::UnknownModule => String::from_str(
                "option for a module that is not listed: ",
            ).concat(t),
        }
    }
}

// ---- executable parsing ----

/// The fault of the `i`-th module name, if any.
fn module_fault_at(names: &Vec<String>, i: usize) -> (r: Option<ParseErrorKind>)
    requires
        i < names@.len(),
    ensures
        r == module_fault(views(names@), i as int),
{
    let ghost w = views(names@);
    if names[i].as_str().is_empty() {
        return Some(ParseErrorKind::EmptyModuleName);
    }
    let mut dup = false;
    let mut j: usize = 0;
    while j < i
        invariant
            i < names@.len(),
            w == views(names@),
            j <= i,
            dup == exists|a: int| 0 <= a < j && w[a] == w[i as int],
        decreases i - j,
    {
        assert(w[j as int] == names@[j as int]@ && w[i as int] == names@[i as int]@);
        if names[j] == names[i] {
            dup = true;
        }
        j = j + 1;
    }
    if dup {
        Some(ParseErrorKind::DuplicateModule)
    } else {
        None
    }
}

/// Reads one option assignment: the index of the module it names, its key
/// and its value.
fn parse_entry(names: &Vec<String>, e: &str) -> (r: Result<(usize, String, String), ParseErrorKind>)
    ensures
        match r {
            Err(k) => option_fault(views(names@), e@) == Some(k),
            Ok((m, key, val)) => {
                &&& option_fault(views(names@), e@) is None
                &&& m as int == index_of(views(names@), entry_module(e@))
                &&& key@ == entry_key(e@)
                &&& val@ == entry_value(e@)
            },
        },
{
    let eq = match char_index(e, '=') {
        Some(p) => p,
        None => return Err(ParseErrorKind::MissingValue),
    };
    let n = e.unicode_len();
    let lhs = e.substring_char(0, eq);
    assert(lhs@ =~= entry_lhs(e@));
    let value = e.substring_char(eq + 1, n);
    assert(value@ =~= entry_value(e@));
    let dot = match char_index(lhs, '.') {
        Some(p) => p,
        None => return Err(ParseErrorKind::MissingModule),
    };
    let module = lhs.substring_char(0, dot);
    assert(module@ =~= entry_module(e@));
    let key = lhs.substring_char(dot + 1, eq);
    assert(key@ =~= entry_key(e@));
    if key.is_empty() {
        return Err(ParseErrorKind::EmptyKey);
    }
    match string_index(names, module) {
        Some(m) => Ok((m, String::from_str(key), String::from_str(value))),
        None => Err(ParseErrorKind::UnknownModule),
    }
}

impl RunConfiguration {
    /// Reads a module text and an option text into a configuration, or
    /// reports the first malformed module name or option assignment.
    pub fn from_args(modules: &str, options: &str) -> (r: Result<RunConfiguration, ParseError>)
        ensures
            parse_result_view(r) == parse_spec(modules@, options@),
            r matches Ok(c) ==> c@.len() >= 1,
    {
        let names = split_fields(modules, ',');
        let ghost nv = views(names@);
        proof {
            lemma_fields_nonempty(modules@, ',');
        }
        let n = names.len();
        let mut mfault: Option<(usize, ParseErrorKind)> = None;
        let mut i: usize = 0;
        while i < n
            invariant
                n == names@.len(),
                nv == views(names@),
                i <= n,
                mfault is None ==> first_module_fault(nv, i as int) is None,
                mfault matches Some((a, k)) ==> a < n && first_module_fault(nv, i as int) == Some(
                    (a as int, k),
                ),
                mfault is None ==> forall|a: int| 0 <= a < i ==> module_fault(nv, a) is None,
            decreases n - i,
        {
            if mfault.is_none() {
                match module_fault_at(&names, i) {
                    Some(k) => {
                        mfault = Some((i, k));
                    },
                    None => {},
                }
            }
            i = i + 1;
        }
        if let Some((a, k)) = mfault {
            return Err(ParseError { kind: k, token: names[a].clone() });
        }
        let entries = if options.is_empty() {
            Vec::new()
        } else {
            split_fields(options, ',')
        };
        let ghost ev = views(entries@);
        assert(ev =~= option_entries(options@));
        let mut rulesets: Vec<Ruleset> = Vec::new();
        let mut i: usize = 0;
        while i < n
            invariant
                n == names@.len(),
                nv == views(names@),
                i <= n,
                rulesets@.len() == i,
                forall|r: int|
                    0 <= r < i ==> (#[trigger] rulesets@[r]).name@ == nv[r] && rulesets@[r].options@
                        == Map::<Seq<char>, Seq<char>>::empty(),
            decreases n - i,
        {
            rulesets.push(Ruleset { name: names[i].clone(), options: OptionMap::new() });
            i = i + 1;
        }
        let ne = entries.len();
        let mut ofault: Option<(usize, ParseErrorKind)> = None;
        let mut j: usize = 0;
        assert(ev.take(0) =~= Seq::<Seq<char>>::empty());
        while j < ne
            invariant
                n == names@.len(),
                nv == views(names@),
                ne == entries@.len(),
                ev == views(entries@),
                j <= ne,
                rulesets@.len() == n,
                forall|a: int| 0 <= a < n ==> module_fault(nv, a) is None,
                ofault is None ==> first_option_fault(nv, ev, j as int) is None,
                ofault matches Some((a, k)) ==> a < ne && first_option_fault(nv, ev, j as int)
                    == Some((a as int, k)),
                forall|r: int| 0 <= r < n ==> (#[trigger] rulesets@[r]).name@ == nv[r],
                ofault is None ==> forall|r: int|
                    0 <= r < n ==> (#[trigger] rulesets@[r]).options@ == options_for(
                        ev.take(j as int),
                        nv[r],
                    ),
            decreases ne - j,
        {
            assert(ev.take(j + 1).drop_last() =~= ev.take(j as int));
            assert(ev.take(j + 1).last() == ev[j as int]);
            match parse_entry(&names, entries[j].as_str()) {
                Ok((m, key, val)) => {
                    if ofault.is_none() {
                        proof {
                            lemma_index_of(nv, entry_module(ev[j as int]));
                        }
                        rulesets[m].options.insert(key, val);
                        assert forall|r: int| 0 <= r < n && r != m implies nv[r] != nv[m as int] by {
                            if r < m {
                                assert(module_fault(nv, m as int) is None);
                            } else {
                                assert(module_fault(nv, r) is None);
                            }
                        }
                    }
                },
                Err(k) => {
                    if ofault.is_none() {
                        ofault = Some((j, k));
                    }
                },
            }
            j = j + 1;
        }
        if let Some((a, k)) = ofault {
            return Err(ParseError { kind: k, token: entries[a].clone() });
        }
        assert(ev.take(ne as int) =~= ev);
        let c = RunConfiguration { rulesets };
        assert(c@ =~= Seq::new(nv.len(), |r: int| (nv[r], options_for(ev, nv[r]))));
        Ok(c)
    }

    /// The rulesets, in execution order.
    pub fn rulesets(&self) -> (r: &Vec<Ruleset>)
        ensures
            ruleset_views(r@) == self@,
    {
        &self.rulesets
    }

    /// The number of rulesets.
    pub fn len(&self) -> (r: usize)
        ensures
            r == self@.len(),
    {
        self.rulesets.len()
    }

    /// Sets the input path and the output target in the options of the
    /// first ruleset, under the keys `file` and `output`.
    pub fn inject_bindings(&mut self, file: String, output: String)
        requires
            old(self)@.len() >= 1,
        ensures
            final(self)@ == inject_spec(old(self)@, file@, output@),
    {
        let file_key = String::from_str("file");
        let output_key = String::from_str("output");
        self.rulesets[0].options.insert(file_key, file);
        self.rulesets[0].options.insert(output_key, output);
        assert(self@ =~= inject_spec(old(self)@, file@, output@));
    }

    /// The module names, comma-separated, in execution order.
    pub fn module_list(&self) -> (r: String)
        ensures
            r@ == join_fields(names_of(self@), ','),
    {
        let ghost names = names_of(self@);
        let n = self.rulesets.len();
        let mut out = String::new();
        let mut i: usize = 0;
        assert(names.take(0) =~= Seq::<Seq<char>>::empty());
        while i < n
            invariant
                n == self.rulesets@.len(),
                names == names_of(self@),
                names.len() == n,
                i <= n,
                out@ == join_fields(names.take(i as int), ','),
            decreases n - i,
        {
            assert(names.take(i + 1).drop_last() =~= names.take(i as int));
            assert(names[i as int] == self.rulesets@[i as int].name@);
            let ghost before = out@;
            if i > 0 {
                out.append(",");
                proof {
                    reveal_strlit(",");
                }
                assert(","@ =~= seq![',']);
                out.append(self.rulesets[i].name.as_str());
                assert(out@ =~= before + seq![','] + names[i as int]);
            } else {
                out.append(self.rulesets[i].name.as_str());
                assert(out@ =~= names.take(1)[0]);
            }
            i = i + 1;
        }
        assert(names.take(n as int) =~= names);
        out
    }
}

} // verus!
