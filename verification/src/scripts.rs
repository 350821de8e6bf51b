//! What the script tiers hand back to the host: party roster requests,
//! how a tier script file is turned into a runtime (or skipped with a
//! warning when it can't be read or doesn't compile), which files of the
//! world scripts folder run, and the strict reading of `say`'s options
//! and their values.

use vstd::prelude::*;
use vstd::string::*;

use crate::text::{ends_with, has_suffix, same_text, sort_texts, texts_sorted};

verus! {

/// A party roster change a script requested this update.
#[derive(Clone, Debug, PartialEq)]
pub enum PartyCommand {
    Add { id: String, name: String, model: String },
    Remove { id: String },
    Leader { id: String },
}

/// A roster change as text.
pub enum PartyCommandView {
    Add { id: Seq<char>, name: Seq<char>, model: Seq<char> },
    Remove { id: Seq<char> },
    Leader { id: Seq<char> },
}

impl View for PartyCommand {
    type V = PartyCommandView;

    open spec fn view(&self) -> PartyCommandView {
        match self {
            PartyCommand::Add { id, name, model } => PartyCommandView::Add {
                id: id@,
                name: name@,
                model: model@,
            },
            PartyCommand::Remove { id } => PartyCommandView::Remove { id: id@ },
            PartyCommand::Leader { id } => PartyCommandView::Leader { id: id@ },
        }
    }
}

/// Roster changes as text, in call order.
pub open spec fn commands_view(commands: Seq<PartyCommand>) -> Seq<PartyCommandView> {
    commands.map_values(|c: PartyCommand| c@)
}

/// What became of a tier script file.
pub enum ScriptLoad<T> {
    /// Read and compiled.
    Ready(T),
    /// Skipped; the content runs without it. Carries the warning.
    Skipped(String),
}

/// The warning for a script file that could not be read.
pub open spec fn unreadable_warning(tier: Seq<char>, path: Seq<char>, error: Seq<char>) -> Seq<char> {
    tier + " script "@ + path + " could not be read, content runs without it: "@ + error
}

/// The warning for a script file that failed to compile.
pub open spec fn broken_warning(tier: Seq<char>, path: Seq<char>, error: Seq<char>) -> Seq<char> {
    tier + " script "@ + path + " failed to compile, content runs without it: "@ + error
}

/// `tier + " script " + path + middle + error`, built in order.
fn warning(tier: &str, path: &str, middle: &str, error: &str) -> (w: String)
    ensures
        w@ == tier@ + " script "@ + path@ + middle@ + error@,
{
    let w = String::from_str(tier);
    let w = w.concat(" script ");
    let w = w.concat(path);
    let w = w.concat(middle);
    w.concat(error)
}

/// Turns a tier script file into a runtime: `read` is the file's text
/// (or why it could not be read), `compile` turns text into the tier's
/// runtime (or says why it doesn't compile). Unreadable or non-compiling
/// files are skipped with a warning naming the tier, the path and the
/// reason, so content runs without the script.
pub fn load_script_file<T, F>(path: &str, tier: &str, read: Result<String, String>, compile: F) -> (r:
    ScriptLoad<T>) where F: Fn(String) -> Result<T, String>
    requires
        read matches Ok(text) ==> compile.requires((text,)),
    ensures
        read matches Err(e) ==> r matches ScriptLoad::Skipped(w) && w@ == unreadable_warning(
            tier@,
            path@,
            e@,
        ),
        read matches Ok(text) ==> exists|c: Result<T, String>| #[trigger]
            compile.ensures((text,), c) && match c {
                Ok(t) => r == ScriptLoad::Ready(t),
                Err(e) => r matches ScriptLoad::Skipped(w) && w@ == broken_warning(tier@, path@, e@),
            },
{
    match read {
        Err(e) => {
            ScriptLoad::Skipped(warning(tier, path, " could not be read, content runs without it: ", e.as_str()))
        },
        Ok(text) => {
            let c = compile(text);
            match c {
                Ok(t) => ScriptLoad::Ready(t),
                Err(e) => ScriptLoad::Skipped(warning(tier, path, " failed to compile, content runs without it: ", e.as_str())),
            }
        },
    }
}

/// An option of an actor's `say(text, options)` call.
#[derive(Clone, Copy, Debug, PartialEq, Eq, Structural)]
pub enum SayOption {
    /// `at`: free screen placement.
    At,
    /// `tail`: the direction the tail points.
    Tail,
    /// `no_tail`: never draw the tail.
    NoTail,
    /// `wait`: stay open until the player confirms.
    Wait,
    /// `ttl`: auto-dismiss after this many seconds.
    Ttl,
}

/// The option a key of the options map names.
pub open spec fn say_option_named(key: Seq<char>) -> Option<SayOption> {
    if key == "at"@ {
        Some(SayOption::At)
    } else if key == "tail"@ {
        Some(SayOption::Tail)
    } else if key == "no_tail"@ {
        Some(SayOption::NoTail)
    } else if key == "wait"@ {
        Some(SayOption::Wait)
    } else if key == "ttl"@ {
        Some(SayOption::Ttl)
    } else {
        None
    }
}

/// The script error for a key that names no option.
pub open spec fn unknown_option_error(key: Seq<char>) -> Seq<char> {
    "unknown option '"@ + key + "'"@
}

/// The script error for a `say` that asks for a tail and for none.
pub open spec fn tail_conflict_error() -> Seq<char> {
    "'tail' and 'no_tail' cannot be combined"@
}

/// Reads a key of `say`'s options map. Strict: an unknown key is an
/// error, so script typos surface at the call site.
pub fn say_option(key: &str) -> (r: Result<SayOption, String>)
    ensures
        match say_option_named(key@) {
            Some(o) => r == Ok::<SayOption, String>(o),
            None => r matches Err(e) && e@ == unknown_option_error(key@),
        },
{
    if same_text(key, "at") {
        Ok(SayOption::At)
    } else if same_text(key, "tail") {
        Ok(SayOption::Tail)
    } else if same_text(key, "no_tail") {
        Ok(SayOption::NoTail)
    } else if same_text(key, "wait") {
        Ok(SayOption::Wait)
    } else if same_text(key, "ttl") {
        Ok(SayOption::Ttl)
    } else {
        let e = String::from_str("unknown option '").concat(key).concat("'");
        Err(e)
    }
}

/// Checks a finished `say` line's options: a tail direction together
/// with `no_tail` is an error.
pub fn check_tail(has_tail: bool, no_tail: bool) -> (r: Result<(), String>)
    ensures
        r is Err <==> has_tail && no_tail,
        r matches Err(e) ==> e@ == tail_conflict_error(),
{
    if has_tail && no_tail {
        Err(String::from_str("'tail' and 'no_tail' cannot be combined"))
    } else {
        Ok(())
    }
}

/// Whether a file name has the `rhai` extension: it ends in `.rhai` and
/// that dot does not start the name (a hidden `.rhai` has no extension).
pub open spec fn is_script_file(name: Seq<char>) -> bool {
    ends_with(name, ".rhai"@) && name.len() > 5
}

/// The script files among a folder's file names, in listing order.
pub open spec fn script_files(names: Seq<Seq<char>>) -> Seq<Seq<char>>
    decreases names.len(),
{
    if names.len() == 0 {
        seq![]
    } else if is_script_file(names.last()) {
        script_files(names.drop_last()).push(names.last())
    } else {
        script_files(names.drop_last())
    }
}

/// Picks the world script files out of the world scripts folder's file
/// names, in the order they run (sorted by name).
pub fn world_script_files(names: &[String]) -> (files: Vec<String>)
    ensures
        texts_sorted(files@.map_values(|s: String| s@)),
        files@.map_values(|s: String| s@).to_multiset() == script_files(
            names@.map_values(|s: String| s@),
        ).to_multiset(),
{
    let ghost nt = names@.map_values(|s: String| s@);
    let mut picked: Vec<String> = Vec::new();
    let mut i: usize = 0;
    assert(nt.take(0) =~= Seq::<Seq<char>>::empty());
    assert(picked@.map_values(|s: String| s@) =~= Seq::<Seq<char>>::empty());
    while i < names.len()
        invariant
            i <= names@.len(),
            nt == names@.map_values(|s: String| s@),
            picked@.map_values(|s: String| s@) == script_files(nt.take(i as int)),
        decreases names@.len() - i,
    {
        assert(nt.take(i + 1).drop_last() =~= nt.take(i as int));
        assert(nt.take(i + 1).last() == names@[i as int]@);
        let name = names[i].as_str();
        proof {
            reveal_strlit(".rhai");
        }
        if has_suffix(name, ".rhai") && name.unicode_len() > 5 {
            let ghost before = picked@.map_values(|s: String| s@);
            picked.push(String::from_str(name));
            assert(picked@.map_values(|s: String| s@) =~= before.push(name@));
        }
        i = i + 1;
    }
    assert(nt.take(names@.len() as int) =~= nt);
    sort_texts(picked)
}

/// What kind of value a `say` option was given, as far as reading it
/// cares.
pub enum OptionValue {
    /// An integer or a float.
    Number,
    /// A boolean.
    Bool,
    /// An array; for each element, whether it is a number.
    Array(Vec<bool>),
    /// Anything else.
    Other,
}

/// `'<key>'` followed by `rest`.
pub open spec fn keyed_error(key: Seq<char>, rest: Seq<char>) -> Seq<char> {
    "'"@ + key + rest
}

/// Why a `say` option's value cannot be read, if it cannot: `at` and
/// `tail` take an array of two numbers, `no_tail` and `wait` a boolean,
/// `ttl` a number of seconds.
pub open spec fn option_value_error(option: SayOption, key: Seq<char>, value: OptionValue) -> Option<Seq<char>> {
    match option {
        SayOption::At | SayOption::Tail => match value {
            OptionValue::Array(elems) => if elems@.len() != 2 {
                Some(keyed_error(key, "' must be an [x, y] array"@))
            } else if !elems@[0] || !elems@[1] {
                Some(keyed_error(key, "' must contain numbers"@))
            } else {
                None
            },
            _ => Some(keyed_error(key, "' must be an [x, y] array"@)),
        },
        SayOption::NoTail | SayOption::Wait => match value {
            OptionValue::Bool => None,
            _ => Some(keyed_error(key, "' must be a bool"@)),
        },
        SayOption::Ttl => match value {
            OptionValue::Number => None,
            _ => Some(keyed_error(key, "' must be a number"@)),
        },
    }
}

/// `'<key>' <rest>` as a string.
fn keyed(key: &str, rest: &str) -> (e: String)
    ensures
        e@ == keyed_error(key@, rest@),
{
    String::from_str("'").concat(key).concat(rest)
}

/// Checks the value given to a `say` option (see
/// [`option_value_error`]); `key` is the option's name as the script
/// wrote it.
pub fn check_option_value(option: SayOption, key: &str, value: &OptionValue) -> (r: Result<(), String>)
    ensures
        match option_value_error(option, key@, *value) {
            Some(e) => r matches Err(m) && m@ == e,
            None => r is Ok,
        },
{
    match option {
        SayOption::At | SayOption::Tail => match value {
            OptionValue::Array(elems) => {
                if elems.len() != 2 {
                    Err(keyed(key, "' must be an [x, y] array"))
                } else if !elems[0] || !elems[1] {
                    Err(keyed(key, "' must contain numbers"))
                } else {
                    Ok(())
                }
            },
            _ => Err(keyed(key, "' must be an [x, y] array")),
        },
        SayOption::NoTail | SayOption::Wait => match value {
            OptionValue::Bool => Ok(()),
            _ => Err(keyed(key, "' must be a bool")),
        },
        SayOption::Ttl => match value {
            OptionValue::Number => Ok(()),
            _ => Err(keyed(key, "' must be a number")),
        },
    }
}

/// Whether `value` is of the kind `option` reads: a number for `ttl`, a
/// boolean for `no_tail` and `wait`, and for `at` and `tail` an array of
/// exactly two elements that are both numbers.
pub open spec fn value_fits(option: SayOption, value: OptionValue) -> bool {
    match value {
        OptionValue::Number => option == SayOption::Ttl,
        OptionValue::Bool => option == SayOption::NoTail || option == SayOption::Wait,
        OptionValue::Array(elems) => (option == SayOption::At || option == SayOption::Tail) && elems@.len() == 2
            && elems@[0] && elems@[1],
        OptionValue::Other => false,
    }
}

/// Every option accepts exactly the values of its kind, and a refusal
/// names the option's key first, as the script wrote it.
pub proof fn lemma_options_accept_their_kind(option: SayOption, key: Seq<char>, value: OptionValue)
    ensures
        option_value_error(option, key, value) is None <==> value_fits(option, value),
        option_value_error(option, key, value) matches Some(e) ==> e.len() > key.len() + 1 && e.take(
            key.len() + 1int,
        ) == "'"@ + key,
{
    reveal_strlit("'");
    reveal_strlit("' must be an [x, y] array");
    reveal_strlit("' must contain numbers");
    reveal_strlit("' must be a bool");
    reveal_strlit("' must be a number");
    if let Some(e) = option_value_error(option, key, value) {
        assert(e.take(key.len() + 1int) =~= "'"@ + key);
    }
}

/// The key that names each `say` option in a script's options map.
pub open spec fn say_option_key(option: SayOption) -> Seq<char> {
    match option {
        SayOption::At => "at"@,
        SayOption::Tail => "tail"@,
        SayOption::NoTail => "no_tail"@,
        SayOption::Wait => "wait"@,
        SayOption::Ttl => "ttl"@,
    }
}

/// Option keys round-trip: each option's key reads back as that option.
pub proof fn lemma_option_keys_round_trip(option: SayOption)
    ensures
        say_option_named(say_option_key(option)) == Some(option),
{
    reveal_strlit("at");
    reveal_strlit("tail");
    reveal_strlit("no_tail");
    reveal_strlit("wait");
    reveal_strlit("ttl");
    assert("at"@.len() == 2 && "tail"@.len() == 4 && "no_tail"@.len() == 7 && "wait"@.len() == 4
        && "ttl"@.len() == 3);
    assert("wait"@[0] != "tail"@[0]);
}

} // verus!
