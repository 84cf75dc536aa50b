//! Command-line options: a registry of the options a program accepts, and the
//! parser that checks the arguments against it.

pub mod grammar;

use vstd::prelude::*;
use vstd::string::*;
use crate::cli::grammar::{is_option_syntax, option_syntax};
use crate::support::assoc::{
    assoc_get, assoc_map, keys_unique, lemma_assoc_get_prefix, lemma_assoc_push,
    lemma_assoc_update_last, lemma_unique_entries_list_the_map, lists_map,
};
use crate::support::text::{
    lemma_split_single_piece, lemma_split_without_separator, lemma_without_dashes_unchanged,
    remove_double_dashes, split_on, split_str, str_eq, views,
    without_double_dashes,
};

verus! {

/// A registered option: its signature, short form, description, default, and
/// whether it is a flag (given without a value).
#[derive(Debug)]
pub struct OptionDefinition {
    signature: &'static str,
    signature_short: Option<&'static str>,
    description: &'static str,
    default: Option<&'static str>,
    is_flag: bool,
}

/// What an `OptionDefinition` holds.
pub struct OptionDefinitionView {
    pub signature: Seq<char>,
    pub signature_short: Option<Seq<char>>,
    pub description: Seq<char>,
    pub default: Option<Seq<char>>,
    pub is_flag: bool,
}

pub open spec fn opt_str_view(s: Option<&'static str>) -> Option<Seq<char>> {
    match s {
        Some(x) => Some(x@),
        None => None,
    }
}

impl View for OptionDefinition {
    type V = OptionDefinitionView;

    closed spec fn view(&self) -> OptionDefinitionView {
        OptionDefinitionView {
            signature: self.signature@,
            signature_short: opt_str_view(self.signature_short),
            description: self.description@,
            default: opt_str_view(self.default),
            is_flag: self.is_flag,
        }
    }
}

impl OptionDefinition {
    pub fn new(
        signature: &'static str,
        signature_short: Option<&'static str>,
        description: &'static str,
        default: Option<&'static str>,
        is_flag: bool,
    ) -> (d: OptionDefinition)
        ensures
            d@ == (OptionDefinitionView {
                signature: signature@,
                signature_short: opt_str_view(signature_short),
                description: description@,
                default: opt_str_view(default),
                is_flag,
            }),
    {
        OptionDefinition { description, signature, signature_short, default, is_flag }
    }

    fn is_flag(&self) -> (b: bool)
        ensures
            b == self@.is_flag,
    {
        self.is_flag
    }

    fn description(&self) -> (s: &'static str)
        ensures
            s@ == self@.description,
    {
        self.description
    }
}

/// The value an option was given: a string, or the presence of a flag.
#[derive(Debug)]
pub enum Value {
    String(String),
    Flag(bool),
}

/// What a `Value` holds.
pub enum ValueView {
    Text(Seq<char>),
    Flag(bool),
}

impl View for Value {
    type V = ValueView;

    open spec fn view(&self) -> ValueView {
        match self {
            Value::String(s) => ValueView::Text(s@),
            Value::Flag(b) => ValueView::Flag(*b),
        }
    }
}

/// The refusal of an argument: the argument as given, and why it was refused.
#[derive(Debug)]
pub struct InvalidOption {
    signature: String,
    msg: String,
}

impl View for InvalidOption {
    type V = (Seq<char>, Seq<char>);

    closed spec fn view(&self) -> (Seq<char>, Seq<char>) {
        (self.signature@, self.msg@)
    }
}

/// The displayed form of a refusal: `"<signature>": <message>`.
pub open spec fn invalid_option_text(signature: Seq<char>, msg: Seq<char>) -> Seq<char> {
    "\""@ + signature + "\": "@ + msg
}

impl InvalidOption {
    pub fn new(signature: String, msg: String) -> (e: InvalidOption)
        ensures
            e@ == (signature@, msg@),
    {
        InvalidOption { signature, msg }
    }

    pub fn msg(&self) -> (m: &String)
        ensures
            m@ == self@.1,
    {
        &self.msg
    }

    pub fn signature(&self) -> (s: &String)
        ensures
            s@ == self@.0,
    {
        &self.signature
    }

    /// The displayed form: `"<signature>": <message>`.
    pub fn to_string(&self) -> (s: String)
        ensures
            s@ == invalid_option_text(self@.0, self@.1),
    {
        let mut s = String::from_str("\"");
        s.append(self.signature.as_str());
        s.append("\": ");
        s.append(self.msg.as_str());
        s
    }
}

/// The message for an argument that is not written as an option.
pub open spec fn malformed_message(arg: Seq<char>) -> Seq<char> {
    "Invalid option \""@ + arg + "\"."@
}

/// The message for an option that is not registered.
pub open spec fn unknown_message(option: Seq<char>) -> Seq<char> {
    "Invalid option \""@ + option + "\""@
}

/// The message for a flag that was given a value.
pub open spec fn flag_value_message(option: Seq<char>) -> Seq<char> {
    "Option "@ + option + " is a flag and cannot accept a value."@
}

/// The message for an option that needs a value and was given none.
pub open spec fn missing_value_message(option: Seq<char>) -> Seq<char> {
    "Option "@ + option + " requires a value"@
}

/// What one argument does: refuse the arguments with a message, record an
/// option under its name without dashes, or (where it holds two or more `=`)
/// nothing.
pub open spec fn arg_step(reg: Map<Seq<char>, OptionDefinitionView>, arg: Seq<char>) -> Result<
    Option<(Seq<char>, ValueView)>,
    Seq<char>,
> {
    if !option_syntax(arg) {
        Err(malformed_message(arg))
    } else {
        let pieces = split_on(arg, '=');
        if pieces.len() == 2 {
            let option = pieces[0];
            if !reg.contains_key(option) {
                Err(unknown_message(option))
            } else if reg[option].is_flag {
                Err(flag_value_message(option))
            } else {
                Ok(Some((without_double_dashes(option), ValueView::Text(pieces[1]))))
            }
        } else if pieces.len() == 1 {
            let option = pieces[0];
            if !reg.contains_key(option) {
                Err(unknown_message(option))
            } else if !reg[option].is_flag {
                Err(missing_value_message(option))
            } else {
                Ok(Some((without_double_dashes(option), ValueView::Flag(true))))
            }
        } else {
            Ok(None)
        }
    }
}

/// Reads `args` in order into `acc`; the first refused argument ends the reading
/// with that argument and its message.
pub open spec fn parse_from(
    reg: Map<Seq<char>, OptionDefinitionView>,
    args: Seq<Seq<char>>,
    acc: Map<Seq<char>, ValueView>,
) -> Result<Map<Seq<char>, ValueView>, (Seq<char>, Seq<char>)>
    decreases args.len(),
{
    if args.len() == 0 {
        Ok(acc)
    } else {
        match arg_step(reg, args[0]) {
            Err(msg) => Err((args[0], msg)),
            Ok(None) => parse_from(reg, args.skip(1), acc),
            Ok(Some(entry)) => parse_from(reg, args.skip(1), acc.insert(entry.0, entry.1)),
        }
    }
}

/// The options that `args` give, or the first refused argument and its message.
pub open spec fn parse_args(reg: Map<Seq<char>, OptionDefinitionView>, args: Seq<Seq<char>>) -> Result<
    Map<Seq<char>, ValueView>,
    (Seq<char>, Seq<char>),
> {
    parse_from(reg, args, Map::empty())
}

/// The host option of the server.
pub open spec fn host_option() -> OptionDefinitionView {
    OptionDefinitionView {
        signature: "--host"@,
        signature_short: None,
        description: "The host the server will run on. Default: 127.0.0.1"@,
        default: Some("127.0.0.1"@),
        is_flag: false,
    }
}

/// The port option of the server (registered with the signature `--host`).
pub open spec fn port_option() -> OptionDefinitionView {
    OptionDefinitionView {
        signature: "--host"@,
        signature_short: Some("-p"@),
        description: "The port the server will listen to. Default: 3000"@,
        default: Some("3000"@),
        is_flag: false,
    }
}

/// The help flag of the server.
pub open spec fn help_option() -> OptionDefinitionView {
    OptionDefinitionView {
        signature: "--help"@,
        signature_short: Some("-h"@),
        description: "List run options."@,
        default: None,
        is_flag: true,
    }
}

/// The registrations of `Registry::default`, in order.
pub open spec fn default_entries() -> Seq<(Seq<char>, OptionDefinitionView)> {
    seq![("--host"@, host_option()), ("--port"@, port_option()), ("--help"@, help_option())]
}

/// The options that `Registry::default` registers, by their handles.
pub open spec fn default_options() -> Map<Seq<char>, OptionDefinitionView> {
    map!["--host"@ => host_option(), "--port"@ => port_option(), "--help"@ => help_option()]
}

/// The options a program accepts, each under its handle.
pub struct Registry {
    inner: Vec<(&'static str, OptionDefinition)>,
}

pub open spec fn registry_entry_view(e: (&'static str, OptionDefinition)) -> (Seq<char>, OptionDefinitionView) {
    (e.0@, e.1@)
}

impl Registry {
    /// The registered entries, in the order they were registered.
    pub closed spec fn entries(&self) -> Seq<(Seq<char>, OptionDefinitionView)> {
        self.inner@.map_values(|e: (&'static str, OptionDefinition)| registry_entry_view(e))
    }
}

impl View for Registry {
    type V = Map<Seq<char>, OptionDefinitionView>;

    open spec fn view(&self) -> Map<Seq<char>, OptionDefinitionView> {
        assoc_map(self.entries())
    }
}

impl Registry {
    /// The registry of the server's options: `--host`, `--port` and the flag `--help`.
    pub fn default() -> (r: Registry)
        ensures
            r.entries() == default_entries(),
            r@ == default_options(),
    {
        let mut args: Vec<(&'static str, OptionDefinition)> = Vec::new();
        args.push(
            (
                "--host",
                OptionDefinition::new(
                    "--host",
                    None,
                    "The host the server will run on. Default: 127.0.0.1",
                    Some("127.0.0.1"),
                    false,
                ),
            ),
        );
        args.push(
            (
                "--port",
                OptionDefinition::new(
                    "--host",
                    Some("-p"),
                    "The port the server will listen to. Default: 3000",
                    Some("3000"),
                    false,
                ),
            ),
        );
        args.push(
            ("--help", OptionDefinition::new("--help", Some("-h"), "List run options.", None, true)),
        );
        let r = Registry { inner: args };
        proof {
            reveal_strlit("--host");
            reveal_strlit("--port");
            reveal_strlit("--help");
            let s = r.entries();
            assert(s.len() == 3);
            let s2 = s.drop_last();
            let s1 = s2.drop_last();
            let s0 = s1.drop_last();
            assert(s0 =~= Seq::<(Seq<char>, OptionDefinitionView)>::empty());
            assert(s.last() == s[2]);
            assert(s2.last() == s[1]);
            assert(s1.last() == s[0]);
            assert(s[0].0 == "--host"@);
            assert(s[1].0 == "--port"@);
            assert(s[2].0 == "--help"@);
            assert("--host"@[2] != "--port"@[2]);
            assert("--host"@[3] != "--help"@[3]);
            assert("--port"@[2] != "--help"@[2]);
            assert("--host"@ != "--port"@);
            assert("--host"@ != "--help"@);
            assert("--port"@ != "--help"@);
            assert(s[0].1 == default_options()["--host"@]);
            assert(s[1].1 == default_options()["--port"@]);
            assert(s[2].1 == default_options()["--help"@]);
            assert forall|k: Seq<char>| #[trigger] assoc_get(s, k) == (if default_options().contains_key(k) { Some(default_options()[k]) } else { None }) by {
                assert(assoc_get(s0, k) is None);
                if k != s[2].0 {
                    assert(assoc_get(s, k) == assoc_get(s2, k));
                    if k != s[1].0 {
                        assert(assoc_get(s2, k) == assoc_get(s1, k));
                        if k != s[0].0 {
                            assert(assoc_get(s1, k) == assoc_get(s0, k));
                        }
                    }
                }
            }
            assert(r@ =~= default_options());
            assert(s =~= default_entries());
        }
        r
    }

    /// The lines of the help text: each handle and its description, indented,
    /// in the order of registration.
    pub fn help_lines(&self) -> (lines: Vec<String>)
        ensures
            lines@.len() == self.entries().len(),
            forall|i: int|
                0 <= i < lines@.len() ==> #[trigger] lines@[i]@ == "    "@ + self.entries()[i].0 + " "@
                    + self.entries()[i].1.description,
    {
        let mut lines: Vec<String> = Vec::new();
        let mut i: usize = 0;
        while i < self.inner.len()
            invariant
                i <= self.inner@.len(),
                lines@.len() == i,
                forall|j: int|
                    0 <= j < i ==> #[trigger] lines@[j]@ == "    "@ + self.entries()[j].0 + " "@
                        + self.entries()[j].1.description,
            decreases self.inner@.len() - i,
        {
            let entry = &self.inner[i];
            let mut line = String::from_str("    ");
            line.append(entry.0);
            line.append(" ");
            line.append(entry.1.description());
            lines.push(line);
            i = i + 1;
        }
        lines
    }

    /// The definition registered under `key`, if any.
    fn find(&self, key: &str) -> (r: Option<&OptionDefinition>)
        ensures
            match r {
                Some(d) => self@.contains_key(key@) && self@[key@] == d@,
                None => !self@.contains_key(key@),
            },
    {
        let mut i = self.inner.len();
        while i > 0
            invariant
                i <= self.inner@.len(),
                forall|j: int| i <= j < self.entries().len() ==> self.entries()[j].0 != key@,
            decreases i,
        {
            let entry = &self.inner[i - 1];
            if str_eq(entry.0, key) {
                proof {
                    let s = self.entries();
                    lemma_assoc_get_prefix(s, key@, i as int);
                    assert(s.take(i as int).last() == s[i - 1]);
                }
                return Some(&entry.1);
            }
            i = i - 1;
        }
        proof {
            let s = self.entries();
            lemma_assoc_get_prefix(s, key@, 0);
            assert(s.take(0).len() == 0);
        }
        None
    }

    /// Reads the arguments in order. Each must be written as an option
    /// (`--name` or `-name`, optionally followed by `=value`) and name a
    /// registered option; flags take no value and other options need one.
    /// The first argument that breaks these rules is refused with a message;
    /// an argument with two or more `=` is passed over.
    pub fn parse(&self, args: Vec<String>) -> (r: Result<Parsed, InvalidOption>)
        ensures
            match parse_args(self@, views(args@)) {
                Ok(m) => r matches Ok(p) && p@ == m,
                Err(refusal) => r matches Err(e) && e@ == refusal,
            },
    {
        let mut entries: Vec<(String, Value)> = Vec::new();
        assert(assoc_map(entry_views(entries@)) =~= Map::<Seq<char>, ValueView>::empty());
        let ghost all = views(args@);
        let mut i: usize = 0;
        assert(all.skip(0) =~= all);
        while i < args.len()
            invariant
                i <= args@.len(),
                all == views(args@),
                keys_unique(entry_views(entries@)),
                parse_from(self@, all.skip(i as int), assoc_map(entry_views(entries@))) == parse_args(self@, all),
            decreases args@.len() - i,
        {
            let arg = &args[i];
            let ghost rest = all.skip(i as int);
            assert(rest[0] == arg@);
            assert(rest.skip(1) =~= all.skip(i + 1));
            if !is_option_syntax(arg.as_str()) {
                let mut msg = String::from_str("Invalid option \"");
                msg.append(arg.as_str());
                msg.append("\".");
                return Err(InvalidOption::new(arg.clone(), msg));
            }
            let split = split_str(arg.as_str(), '=');
            if split.len() == 2 {
                let option = &split[0];
                let value = &split[1];
                match self.find(option.as_str()) {
                    Some(option_type) => {
                        if option_type.is_flag() {
                            let mut msg = String::from_str("Option ");
                            msg.append(option.as_str());
                            msg.append(" is a flag and cannot accept a value.");
                            return Err(InvalidOption::new(arg.clone(), msg));
                        }
                        let name = remove_double_dashes(option.as_str());
                        insert_entry(&mut entries, name, Value::String(value.clone()));
                    },
                    None => {
                        let mut msg = String::from_str("Invalid option \"");
                        msg.append(option.as_str());
                        msg.append("\"");
                        return Err(InvalidOption::new(arg.clone(), msg));
                    },
                }
            } else if split.len() == 1 {
                let option = &split[0];
                match self.find(option.as_str()) {
                    Some(option_type) => {
                        if !option_type.is_flag() {
                            let mut msg = String::from_str("Option ");
                            msg.append(option.as_str());
                            msg.append(" requires a value");
                            return Err(InvalidOption::new(arg.clone(), msg));
                        }
                        let name = remove_double_dashes(option.as_str());
                        insert_entry(&mut entries, name, Value::Flag(true));
                    },
                    None => {
                        let mut msg = String::from_str("Invalid option \"");
                        msg.append(option.as_str());
                        msg.append("\"");
                        return Err(InvalidOption::new(arg.clone(), msg));
                    },
                }
            }
            i = i + 1;
        }
        assert(all.skip(i as int).len() == 0);
        Ok(Parsed { inner: entries })
    }
}

/// The options that were given, each under its name without dashes.
#[derive(Debug)]
pub struct Parsed {
    inner: Vec<(String, Value)>,
}

pub open spec fn parsed_entry_view(e: (String, Value)) -> (Seq<char>, ValueView) {
    (e.0@, e.1@)
}

/// The views of stored entries.
pub open spec fn entry_views(s: Seq<(String, Value)>) -> Seq<(Seq<char>, ValueView)> {
    s.map_values(|e: (String, Value)| parsed_entry_view(e))
}

impl Parsed {
    /// The stored entries, each name once, in the order they were first stored.
    pub closed spec fn entries(&self) -> Seq<(Seq<char>, ValueView)> {
        entry_views(self.inner@)
    }

    /// No name is stored twice.
    #[verifier::type_invariant]
    spec fn names_once(&self) -> bool {
        keys_unique(self.entries())
    }
}

fn clone_value(v: &Value) -> (r: Value)
    ensures
        r@ == v@,
{
    match v {
        Value::String(s) => Value::String(s.clone()),
        Value::Flag(b) => Value::Flag(*b),
    }
}

/// Records `value` under `key` among the entries, replacing what was recorded there.
fn insert_entry(entries: &mut Vec<(String, Value)>, key: String, value: Value)
    requires
        keys_unique(entry_views(old(entries)@)),
    ensures
        keys_unique(entry_views(final(entries)@)),
        assoc_map(entry_views(final(entries)@)) == assoc_map(entry_views(old(entries)@)).insert(key@, value@),
{
    let ghost before = entry_views(entries@);
    let mut i = entries.len();
    while i > 0
        invariant
            i <= entries@.len(),
            entries@ == old(entries)@,
            before == entry_views(entries@),
            keys_unique(before),
            forall|j: int| i <= j < before.len() ==> before[j].0 != key@,
        decreases i,
    {
        if str_eq(entries[i - 1].0.as_str(), key.as_str()) {
            let ghost k = key@;
            let ghost v = value@;
            entries.set(i - 1, (key, value));
            proof {
                assert(entry_views(entries@) =~= before.update(i - 1, (k, v)));
                lemma_assoc_update_last(before, i - 1, k, v);
                assert forall|a: int, b: int| 0 <= a < b < entry_views(entries@).len() implies entry_views(entries@)[a].0 != entry_views(entries@)[b].0 by {
                    assert(before[a].0 != before[b].0);
                }
            }
            return;
        }
        i = i - 1;
    }
    let ghost k = key@;
    let ghost v = value@;
    entries.push((key, value));
    proof {
        assert(entry_views(entries@) =~= before.push((k, v)));
        lemma_assoc_push(before, k, v);
    }
}

/// How one entry is displayed: `name=value`, or `name` for a flag.
pub open spec fn entry_text(e: (Seq<char>, ValueView)) -> Seq<char> {
    match e.1 {
        ValueView::Text(v) => e.0 + "="@ + v,
        ValueView::Flag(_) => e.0,
    }
}

/// The entries displayed and joined by `, `.
pub open spec fn parsed_text(es: Seq<(Seq<char>, ValueView)>) -> Seq<char>
    decreases es.len(),
{
    if es.len() == 0 {
        Seq::empty()
    } else if es.len() == 1 {
        entry_text(es[0])
    } else {
        parsed_text(es.drop_last()) + ", "@ + entry_text(es.last())
    }
}

impl View for Parsed {
    type V = Map<Seq<char>, ValueView>;

    open spec fn view(&self) -> Map<Seq<char>, ValueView> {
        assoc_map(self.entries())
    }
}

/// The map that the entries build, a later entry replacing an earlier one with the same name.
pub open spec fn entries_map(entries: Seq<(String, Value)>) -> Map<Seq<char>, ValueView> {
    assoc_map(entry_views(entries))
}

impl Parsed {
    /// The options recorded in `parsed`, in order: a later entry replaces an
    /// earlier one with the same name, and each name is kept once.
    pub fn new(parsed: Vec<(String, Value)>) -> (p: Parsed)
        ensures
            p@ == entries_map(parsed@),
    {
        let mut entries: Vec<(String, Value)> = Vec::new();
        let mut i: usize = 0;
        assert(entry_views(parsed@).take(0) =~= entry_views(entries@));
        while i < parsed.len()
            invariant
                i <= parsed@.len(),
                keys_unique(entry_views(entries@)),
                assoc_map(entry_views(entries@)) == assoc_map(entry_views(parsed@).take(i as int)),
            decreases parsed@.len() - i,
        {
            let entry = &parsed[i];
            let ghost before = entry_views(parsed@).take(i as int);
            insert_entry(&mut entries, entry.0.clone(), clone_value(&entry.1));
            proof {
                assert(entry_views(parsed@).take(i + 1) =~= before.push((entry.0@, entry.1@)));
                lemma_assoc_push(before, entry.0@, entry.1@);
            }
            i = i + 1;
        }
        assert(entry_views(parsed@).take(i as int) =~= entry_views(parsed@));
        Parsed { inner: entries }
    }

    /// Whether the help flag was given.
    pub fn help_requested(&self) -> (b: bool)
        ensures
            b == self@.contains_key("help"@),
    {
        self.contains_key("help")
    }

    fn contains_key(&self, key: &str) -> (b: bool)
        ensures
            b == self@.contains_key(key@),
    {
        self.find(key).is_some()
    }

    /// The value last recorded under `key`, if any.
    fn find(&self, key: &str) -> (r: Option<&Value>)
        ensures
            match r {
                Some(v) => self@.contains_key(key@) && self@[key@] == v@,
                None => !self@.contains_key(key@),
            },
    {
        let mut i = self.inner.len();
        while i > 0
            invariant
                i <= self.inner@.len(),
                forall|j: int| i <= j < self.entries().len() ==> self.entries()[j].0 != key@,
            decreases i,
        {
            let entry = &self.inner[i - 1];
            if str_eq(entry.0.as_str(), key) {
                proof {
                    let s = self.entries();
                    lemma_assoc_get_prefix(s, key@, i as int);
                    assert(s.take(i as int).last() == s[i - 1]);
                }
                return Some(&entry.1);
            }
            i = i - 1;
        }
        proof {
            let s = self.entries();
            lemma_assoc_get_prefix(s, key@, 0);
            assert(s.take(0).len() == 0);
        }
        None
    }

    /// The displayed form: the entries joined by `, `, each `name=value`, or
    /// `name` for a flag.
    pub fn to_string(&self) -> (s: String)
        ensures
            s@ == parsed_text(self.entries()),
            lists_map(self.entries(), self@),
    {
        proof {
            use_type_invariant(self);
            lemma_unique_entries_list_the_map(self.entries());
        }
        let mut out = String::new();
        let mut i: usize = 0;
        assert(self.entries().take(0) =~= Seq::<(Seq<char>, ValueView)>::empty());
        while i < self.inner.len()
            invariant
                i <= self.inner@.len(),
                out@ == parsed_text(self.entries().take(i as int)),
            decreases self.inner@.len() - i,
        {
            let entry = &self.inner[i];
            let ghost es = self.entries();
            assert(es.take(i + 1).drop_last() =~= es.take(i as int));
            assert(es.take(i + 1).last() == es[i as int]);
            if i != 0 {
                out.append(", ");
            }
            out.append(entry.0.as_str());
            match &entry.1 {
                Value::String(v) => {
                    out.append("=");
                    out.append(v.as_str());
                },
                Value::Flag(_) => {},
            }
            assert(out@ =~= parsed_text(es.take(i + 1)));
            i = i + 1;
        }
        assert(self.entries().take(i as int) =~= self.entries());
        out
    }

    /// The host that was given; where none was, the default `127.0.0.1`.
    pub fn host(&self) -> (h: String)
        ensures
            h@ == (if self@.contains_key("host"@) && self@["host"@] is Text {
                self@["host"@]->Text_0
            } else {
                "127.0.0.1"@
            }),
    {
        match self.find("host") {
            Some(Value::String(host)) => host.clone(),
            _ => String::from_str("127.0.0.1"),
        }
    }

    /// The port that was given; where none was, the default `3000`.
    pub fn port(&self) -> (p: String)
        ensures
            p@ == (if self@.contains_key("port"@) && self@["port"@] is Text {
                self@["port"@]->Text_0
            } else {
                "3000"@
            }),
    {
        match self.find("port") {
            Some(Value::String(port)) => port.clone(),
            _ => String::from_str("3000"),
        }
    }
}

proof fn lemma_parse_from_concat(
    reg: Map<Seq<char>, OptionDefinitionView>,
    a: Seq<Seq<char>>,
    b: Seq<Seq<char>>,
    acc: Map<Seq<char>, ValueView>,
)
    ensures
        parse_from(reg, a + b, acc) == (match parse_from(reg, a, acc) {
            Ok(m) => parse_from(reg, b, m),
            Err(e) => Err(e),
        }),
    decreases a.len(),
{
    if a.len() == 0 {
        assert(a + b =~= b);
    } else {
        assert((a + b)[0] == a[0]);
        assert((a + b).skip(1) =~= a.skip(1) + b);
        match arg_step(reg, a[0]) {
            Err(msg) => {},
            Ok(None) => lemma_parse_from_concat(reg, a.skip(1), b, acc),
            Ok(Some(entry)) => lemma_parse_from_concat(reg, a.skip(1), b, acc.insert(entry.0, entry.1)),
        }
    }
}

/// Reading arguments in two parts is reading them at once: the second part
/// goes on from the options of the first, unless the first refuses.
pub proof fn lemma_parse_concat(reg: Map<Seq<char>, OptionDefinitionView>, a: Seq<Seq<char>>, b: Seq<Seq<char>>)
    ensures
        parse_args(reg, a + b) == (match parse_args(reg, a) {
            Ok(m) => parse_from(reg, b, m),
            Err(e) => Err(e),
        }),
{
    lemma_parse_from_concat(reg, a, b, Map::empty());
}

proof fn lemma_parse_from_refusal(
    reg: Map<Seq<char>, OptionDefinitionView>,
    args: Seq<Seq<char>>,
    acc: Map<Seq<char>, ValueView>,
)
    ensures
        parse_from(reg, args, acc) is Ok <==> forall|i: int| 0 <= i < args.len() ==> #[trigger] arg_step(reg, args[i]) is Ok,
        parse_from(reg, args, acc) matches Err((sig, msg)) ==> exists|i: int|
            0 <= i < args.len() && sig == args[i] && #[trigger] arg_step(reg, args[i]) == Err::<Option<(Seq<char>, ValueView)>, Seq<char>>(msg)
                && forall|j: int| 0 <= j < i ==> #[trigger] arg_step(reg, args[j]) is Ok,
    decreases args.len(),
{
    if args.len() > 0 {
        let rest = args.skip(1);
        assert forall|i: int| 0 <= i < rest.len() implies #[trigger] rest[i] == args[i + 1] by {}
        match arg_step(reg, args[0]) {
            Err(msg) => {},
            Ok(None) => {
                lemma_parse_from_refusal(reg, rest, acc);
                if parse_from(reg, args, acc) is Ok {
                    assert forall|i: int| 0 <= i < args.len() implies #[trigger] arg_step(reg, args[i]) is Ok by {
                        if i > 0 {
                            assert(rest[i - 1] == args[i]);
                        }
                    }
                }
                if let Err((sig, msg)) = parse_from(reg, args, acc) {
                    let k = choose|k: int|
                        0 <= k < rest.len() && sig == rest[k] && #[trigger] arg_step(reg, rest[k]) == Err::<Option<(Seq<char>, ValueView)>, Seq<char>>(msg)
                            && forall|j: int| 0 <= j < k ==> #[trigger] arg_step(reg, rest[j]) is Ok;
                    assert(rest[k] == args[k + 1]);
                    assert forall|j: int| 0 <= j < k + 1 implies #[trigger] arg_step(reg, args[j]) is Ok by {
                        if j > 0 {
                            assert(rest[j - 1] == args[j]);
                        }
                    }
                }
            },
            Ok(Some(entry)) => {
                let acc2 = acc.insert(entry.0, entry.1);
                lemma_parse_from_refusal(reg, rest, acc2);
                if parse_from(reg, args, acc) is Ok {
                    assert forall|i: int| 0 <= i < args.len() implies #[trigger] arg_step(reg, args[i]) is Ok by {
                        if i > 0 {
                            assert(rest[i - 1] == args[i]);
                        }
                    }
                }
                if let Err((sig, msg)) = parse_from(reg, args, acc) {
                    let k = choose|k: int|
                        0 <= k < rest.len() && sig == rest[k] && #[trigger] arg_step(reg, rest[k]) == Err::<Option<(Seq<char>, ValueView)>, Seq<char>>(msg)
                            && forall|j: int| 0 <= j < k ==> #[trigger] arg_step(reg, rest[j]) is Ok;
                    assert(rest[k] == args[k + 1]);
                    assert forall|j: int| 0 <= j < k + 1 implies #[trigger] arg_step(reg, args[j]) is Ok by {
                        if j > 0 {
                            assert(rest[j - 1] == args[j]);
                        }
                    }
                }
            },
        }
    }
}

/// The arguments are read without refusal exactly when no argument is refused on
/// its own; a refusal names the first refused argument and its message.
pub proof fn lemma_parse_refusal(reg: Map<Seq<char>, OptionDefinitionView>, args: Seq<Seq<char>>)
    ensures
        parse_args(reg, args) is Ok <==> forall|i: int| 0 <= i < args.len() ==> #[trigger] arg_step(reg, args[i]) is Ok,
        parse_args(reg, args) matches Err((sig, msg)) ==> exists|i: int|
            0 <= i < args.len() && sig == args[i] && #[trigger] arg_step(reg, args[i]) == Err::<Option<(Seq<char>, ValueView)>, Seq<char>>(msg)
                && forall|j: int| 0 <= j < i ==> #[trigger] arg_step(reg, args[j]) is Ok,
{
    lemma_parse_from_refusal(reg, args, Map::empty());
}

proof fn lemma_parse_from_keeps_names(
    reg: Map<Seq<char>, OptionDefinitionView>,
    args: Seq<Seq<char>>,
    acc: Map<Seq<char>, ValueView>,
    name: Seq<char>,
)
    requires
        acc.contains_key(name),
    ensures
        parse_from(reg, args, acc) matches Ok(m) ==> m.contains_key(name),
    decreases args.len(),
{
    if args.len() > 0 {
        match arg_step(reg, args[0]) {
            Err(msg) => {},
            Ok(None) => lemma_parse_from_keeps_names(reg, args.skip(1), acc, name),
            Ok(Some(entry)) => lemma_parse_from_keeps_names(reg, args.skip(1), acc.insert(entry.0, entry.1), name),
        }
    }
}

/// A registered flag that is given among the arguments is recorded under its
/// name without dashes, whenever the arguments are read without refusal.
pub proof fn lemma_given_flag_is_recorded(reg: Map<Seq<char>, OptionDefinitionView>, args: Seq<Seq<char>>, i: int)
    requires
        0 <= i < args.len(),
        option_syntax(args[i]),
        !args[i].contains('='),
        reg.contains_key(args[i]),
        reg[args[i]].is_flag,
    ensures
        parse_args(reg, args) matches Ok(m) ==> m.contains_key(without_double_dashes(args[i])),
{
    lemma_split_without_separator(args[i], '=');
    let a = args.take(i);
    let b = args.skip(i);
    assert(a + b =~= args);
    lemma_parse_concat(reg, a, b);
    assert(b[0] == args[i]);
    assert(arg_step(reg, args[i]) == Ok::<Option<(Seq<char>, ValueView)>, Seq<char>>(Some((without_double_dashes(args[i]), ValueView::Flag(true)))));
    if let Ok(m1) = parse_args(reg, a) {
        let acc2 = m1.insert(without_double_dashes(args[i]), ValueView::Flag(true));
        lemma_parse_from_keeps_names(reg, b.skip(1), acc2, without_double_dashes(args[i]));
    }
}

/// Whether every name in `m` is the name, without dashes, of a registered option.
pub open spec fn names_registered(reg: Map<Seq<char>, OptionDefinitionView>, m: Map<Seq<char>, ValueView>) -> bool {
    forall|k: Seq<char>| #[trigger] m.contains_key(k) ==> exists|h: Seq<char>| reg.contains_key(h) && k == without_double_dashes(h)
}

proof fn lemma_parse_from_names_registered(
    reg: Map<Seq<char>, OptionDefinitionView>,
    args: Seq<Seq<char>>,
    acc: Map<Seq<char>, ValueView>,
)
    requires
        names_registered(reg, acc),
    ensures
        parse_from(reg, args, acc) matches Ok(m) ==> names_registered(reg, m),
    decreases args.len(),
{
    if args.len() > 0 {
        match arg_step(reg, args[0]) {
            Err(msg) => {},
            Ok(None) => lemma_parse_from_names_registered(reg, args.skip(1), acc),
            Ok(Some(entry)) => {
                let pieces = split_on(args[0], '=');
                let option = pieces[0];
                assert(reg.contains_key(option) && entry.0 == without_double_dashes(option));
                let acc2 = acc.insert(entry.0, entry.1);
                assert forall|k: Seq<char>| #[trigger] acc2.contains_key(k) implies exists|h: Seq<char>| reg.contains_key(h) && k == without_double_dashes(h) by {
                    if k == entry.0 {
                        assert(reg.contains_key(option) && k == without_double_dashes(option));
                    } else {
                        assert(acc.contains_key(k));
                    }
                }
                lemma_parse_from_names_registered(reg, args.skip(1), acc2);
            },
        }
    }
}

/// The parser records only registered options: every recorded name is the
/// handle of a registered option without its dashes.
pub proof fn lemma_recorded_names_are_registered(reg: Map<Seq<char>, OptionDefinitionView>, args: Seq<Seq<char>>)
    ensures
        parse_args(reg, args) matches Ok(m) ==> names_registered(reg, m),
{
    lemma_parse_from_names_registered(reg, args, Map::empty());
}

/// Giving `--help` to the default registry, with arguments that are read without
/// refusal, requests help.
pub proof fn lemma_help_flag_requests_help(args: Seq<Seq<char>>, i: int)
    requires
        0 <= i < args.len(),
        args[i] == "--help"@,
    ensures
        parse_args(default_options(), args) matches Ok(m) ==> m.contains_key("help"@),
{
    reveal_strlit("--help");
    reveal_strlit("help");
    let s = "--help"@;
    assert(s.len() == 6);
    assert(crate::cli::grammar::name_end(s, 6) == 6);
    assert(crate::cli::grammar::name_end(s, 5) == 6);
    assert(crate::cli::grammar::name_end(s, 4) == 6);
    assert(crate::cli::grammar::name_end(s, 3) == 6);
    assert(option_syntax(s));
    assert(!s.contains('=')) by {
        if s.contains('=') {
            let k = choose|k: int| 0 <= k < s.len() && s[k] == '=';
        }
    }
    let t = s.skip(2);
    assert(t =~= "help"@);
    assert(without_double_dashes(t.skip(3)) =~= t.skip(3)) by {
        assert(t.skip(3).len() == 1);
        assert(t.skip(3).skip(1) =~= Seq::<char>::empty());
        assert(without_double_dashes(t.skip(3).skip(1)) =~= Seq::<char>::empty());
        assert(seq![t.skip(3)[0]] =~= t.skip(3));
    }
    assert(without_double_dashes(t.skip(2)) =~= t.skip(2)) by {
        assert(t.skip(2).skip(1) =~= t.skip(3));
    }
    assert(without_double_dashes(t.skip(1)) =~= t.skip(1)) by {
        assert(t.skip(1).skip(1) =~= t.skip(2));
    }
    assert(without_double_dashes(t) =~= t) by {
        assert(t.skip(1) =~= t.skip(1));
    }
    assert(without_double_dashes(s) == "help"@);
    lemma_given_flag_is_recorded(default_options(), args, i);
}

/// `--name` with a name free of dashes loses just its two leading dashes.
proof fn lemma_handle_name(h: Seq<char>)
    requires
        h.len() >= 2,
        h[0] == '-',
        h[1] == '-',
        !h.skip(2).contains('-'),
    ensures
        without_double_dashes(h) == h.skip(2),
{
    lemma_without_dashes_unchanged(h.skip(2));
}

proof fn lemma_no_dash(s: Seq<char>)
    requires
        forall|i: int| 0 <= i < s.len() ==> s[i] != '-',
    ensures
        !s.contains('-'),
{
}

/// With the default registry, an argument records the name `help` only where it
/// is exactly `--help`.
proof fn lemma_help_recorded_only_from_help_flag(a: Seq<char>, k: Seq<char>, v: ValueView)
    requires
        arg_step(default_options(), a) == Ok::<Option<(Seq<char>, ValueView)>, Seq<char>>(Some((k, v))),
        k == "help"@,
    ensures
        a == "--help"@,
{
    reveal_strlit("--host");
    reveal_strlit("--port");
    reveal_strlit("--help");
    reveal_strlit("help");
    let pieces = split_on(a, '=');
    let option = pieces[0];
    let reg = default_options();
    assert(reg.contains_key(option));
    assert(option == "--host"@ || option == "--port"@ || option == "--help"@);
    lemma_no_dash("--host"@.skip(2));
    lemma_no_dash("--port"@.skip(2));
    lemma_handle_name("--host"@);
    lemma_handle_name("--port"@);
    if option == "--host"@ {
        assert(without_double_dashes(option)[1] != "help"@[1]);
    } else if option == "--port"@ {
        assert(without_double_dashes(option)[0] != "help"@[0]);
    }
    assert(option == "--help"@);
    assert(reg[option].is_flag);
    assert(pieces.len() == 1);
    lemma_split_single_piece(a, '=');
}

proof fn lemma_parse_from_help_source(args: Seq<Seq<char>>, acc: Map<Seq<char>, ValueView>)
    ensures
        parse_from(default_options(), args, acc) matches Ok(m) && m.contains_key("help"@) ==> acc.contains_key("help"@)
            || args.contains("--help"@),
    decreases args.len(),
{
    let reg = default_options();
    if args.len() > 0 {
        let rest = args.skip(1);
        let acc2 = match arg_step(reg, args[0]) {
            Ok(Some(entry)) => acc.insert(entry.0, entry.1),
            _ => acc,
        };
        match arg_step(reg, args[0]) {
            Err(msg) => {},
            Ok(None) => lemma_parse_from_help_source(rest, acc),
            Ok(Some(entry)) => {
                lemma_parse_from_help_source(rest, acc2);
                if entry.0 == "help"@ {
                    lemma_help_recorded_only_from_help_flag(args[0], entry.0, entry.1);
                    assert(args[0] == "--help"@);
                }
            },
        }
        if rest.contains("--help"@) {
            let j = choose|j: int| 0 <= j < rest.len() && rest[j] == "--help"@;
            assert(args[j + 1] == "--help"@);
        }
    }
}

/// With the default registry, a successful parse requests help exactly when
/// one of the arguments is `--help`.
pub proof fn lemma_help_requested_iff_help_flag(args: Seq<Seq<char>>)
    ensures
        parse_args(default_options(), args) matches Ok(m) ==> (m.contains_key("help"@) <==> args.contains(
            "--help"@,
        )),
{
    lemma_parse_from_help_source(args, Map::empty());
    if args.contains("--help"@) {
        let i = choose|i: int| 0 <= i < args.len() && args[i] == "--help"@;
        lemma_help_flag_requests_help(args, i);
    }
}

} // verus!
